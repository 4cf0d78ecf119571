use uv_core::Libc;
use uv_core::LibcVersion;
use uv_core::TargetEnvironment;
use uv_core::libc::PlatformError;
use uv_core::libc::glibc_ld_output_to_version;
use uv_core::libc::interpreter_from_probes;
use uv_core::libc::ld_symlink_version;
use uv_core::libc::musl_ld_output_to_version;

#[test]
fn parse_ld_so_output() {
    let ver_str = glibc_ld_output_to_version(
        "stdout",
        b"ld.so (Ubuntu GLIBC 2.39-0ubuntu8.3) stable release version 2.39.\n\
Copyright (C) 2024 Free Software Foundation, Inc.\n\
This is free software; see the source for copying conditions.\n\
There is NO warranty; not even for MERCHANTABILITY or FITNESS FOR A\n\
PARTICULAR PURPOSE.\n",
    )
    .unwrap();
    assert_eq!(
        ver_str,
        LibcVersion::Manylinux {
            major: 2,
            minor: 39
        }
    );
}

#[test]
fn parse_musl_ld_output() {
    // Output of the kind a musl loader prints on stderr when run without
    // arguments, as seen on an Alpine 3.19.1 image.
    let output = b"musl libc (x86_64)\n\
Version 1.2.4_git20230717\n\
Dynamic Program Loader\n\
Usage: /lib/ld-musl-x86_64.so.1 [options] [--] pathname [args]";
    let got = musl_ld_output_to_version("stderr", output).unwrap();
    assert_eq!(got, LibcVersion::Musllinux { major: 1, minor: 2 });
}

#[test]
fn glibc_output_without_banner_is_rejected() {
    assert!(glibc_ld_output_to_version("stdout", b"bash: command not found\n").is_none());
    assert!(glibc_ld_output_to_version("stdout", b"").is_none());
}

#[test]
fn musl_output_without_version_is_rejected() {
    assert!(musl_ld_output_to_version("stderr", b"musl libc (x86_64)\n").is_none());
    assert!(musl_ld_output_to_version("stderr", b"Version x.y\n").is_none());
}

#[test]
fn glibc_banner_takes_the_last_version_on_the_line() {
    let got = glibc_ld_output_to_version(
        "stdout",
        b"ld.so (GNU libc 2.31-13) stable 2.31 release version 2.39.\n",
    )
    .unwrap();
    assert_eq!(
        got,
        LibcVersion::Manylinux {
            major: 2,
            minor: 39
        }
    );
    assert!(glibc_ld_output_to_version("stdout", b"ld.so (incomplete\n").is_none());
}

#[test]
fn musl_version_scan_skips_malformed_announcements() {
    let got = musl_ld_output_to_version("stderr", b"Version 12345.6\nVersion 1.2.3\n").unwrap();
    assert_eq!(got, LibcVersion::Musllinux { major: 1, minor: 2 });
}

#[test]
fn linker_file_name_yields_glibc_version() {
    assert_eq!(
        ld_symlink_version(b"ld-2.39.so"),
        Some(LibcVersion::Manylinux {
            major: 2,
            minor: 39
        })
    );
    assert_eq!(ld_symlink_version(b"ld-linux-x86-64.so.2"), None);
    assert_eq!(ld_symlink_version(b"ld-2.39.so.1"), None);
    assert_eq!(ld_symlink_version(b"ld-1234.5.so"), None);
}

#[test]
fn libc_names_parse() {
    assert_eq!(
        Libc::from_str("gnu"),
        Ok(Libc::Known(TargetEnvironment::Gnu))
    );
    assert_eq!(
        Libc::from_str("gnueabi"),
        Ok(Libc::Known(TargetEnvironment::Gnueabi))
    );
    assert_eq!(
        Libc::from_str("gnueabihf"),
        Ok(Libc::Known(TargetEnvironment::Gnueabihf))
    );
    assert_eq!(
        Libc::from_str("musl"),
        Ok(Libc::Known(TargetEnvironment::Musl))
    );
    assert_eq!(Libc::from_str("none"), Ok(Libc::Absent));
    assert_eq!(
        Libc::from_str("uclibc"),
        Err(PlatformError::UnknownLibc("uclibc".to_string()))
    );
}

#[test]
fn libc_names_round_trip() {
    for name in ["gnu", "gnueabi", "gnueabihf", "musl", "none"] {
        let libc = Libc::from_str(name).unwrap();
        assert_eq!(libc.name(), name);
    }
}

#[test]
fn musl_detection_from_libc_value() {
    assert!(Libc::Known(TargetEnvironment::Musl).is_musl());
    assert!(!Libc::Known(TargetEnvironment::Gnu).is_musl());
    assert!(!Libc::Absent.is_musl());
}

fn minimal_elf_with_interpreter(interp: &str) -> Vec<u8> {
    let mut b: Vec<u8> = Vec::new();
    // A 64-bit little-endian ELF header.
    b.extend_from_slice(&[0x7f, b'E', b'L', b'F', 2, 1, 1, 0, 0, 0, 0, 0, 0, 0, 0, 0]);
    b.extend_from_slice(&2u16.to_le_bytes()); // executable
    b.extend_from_slice(&62u16.to_le_bytes()); // x86-64
    b.extend_from_slice(&1u32.to_le_bytes()); // version
    b.extend_from_slice(&0u64.to_le_bytes()); // entry point
    b.extend_from_slice(&64u64.to_le_bytes()); // program-header offset
    b.extend_from_slice(&0u64.to_le_bytes()); // section-header offset
    b.extend_from_slice(&0u32.to_le_bytes()); // flags
    b.extend_from_slice(&64u16.to_le_bytes()); // header size
    b.extend_from_slice(&56u16.to_le_bytes()); // program-header entry size
    b.extend_from_slice(&1u16.to_le_bytes()); // one program header
    b.extend_from_slice(&0u16.to_le_bytes()); // section-header entry size
    b.extend_from_slice(&0u16.to_le_bytes()); // no sections
    b.extend_from_slice(&0u16.to_le_bytes()); // no string table
    // One PT_INTERP program header pointing just past itself.
    let interp_bytes = interp.as_bytes();
    b.extend_from_slice(&3u32.to_le_bytes()); // PT_INTERP
    b.extend_from_slice(&4u32.to_le_bytes()); // readable
    b.extend_from_slice(&120u64.to_le_bytes()); // file offset of the path
    b.extend_from_slice(&0u64.to_le_bytes()); // virtual address
    b.extend_from_slice(&0u64.to_le_bytes()); // physical address
    b.extend_from_slice(&((interp_bytes.len() as u64) + 1).to_le_bytes()); // size on disk
    b.extend_from_slice(&((interp_bytes.len() as u64) + 1).to_le_bytes()); // size in memory
    b.extend_from_slice(&1u64.to_le_bytes()); // alignment
    b.extend_from_slice(interp_bytes);
    b.push(0);
    b
}

#[test]
fn probe_yields_interpreter_of_first_parsable_binary() {
    let elf = minimal_elf_with_interpreter("/lib64/ld-linux-x86-64.so.2");
    let probes = vec![None, Some(b"#!/bin/dash\n".to_vec()), Some(elf)];
    let got = interpreter_from_probes(&probes);
    assert_eq!(got, Some("/lib64/ld-linux-x86-64.so.2".to_string()));
}

#[test]
fn probe_without_elf_yields_nothing() {
    let probes = vec![None, Some(b"plain text".to_vec())];
    assert_eq!(interpreter_from_probes(&probes), None);
    assert_eq!(interpreter_from_probes(&Vec::new()), None);
}
