use cppbuild::compiling::WalkEntry;
use cppbuild::project::Package;
use cppbuild::upstream::{
    compress, data_dir_for, data_dir_under, download_packages, generate_package, get_arch, library_candidates,
    pack, packed, program_data, unpack, Index, PackageAction, PackageType, RepoEntry,
    UpstreamError, Version,
};

fn strings(items: &[&str]) -> Vec<String> {
    items.iter().map(|i| i.to_string()).collect()
}

fn entry(path: &str, is_file: bool) -> WalkEntry {
    WalkEntry { path: path.to_string(), is_file, modified: 0 }
}

fn package(name: &str, version: &str) -> Package {
    Package::new(name.to_string(), version.to_string(), "c++17".to_string(), None, vec![], None)
}

#[test]
fn platform_is_architecture_and_system() {
    assert_eq!(
        get_arch(Some("x86_64".to_string()), Some("linux".to_string())),
        Ok("x86_64-linux".to_string())
    );
    assert_eq!(get_arch(None, Some("linux".to_string())), Err(UpstreamError::ArchitectureUnknown));
    assert_eq!(get_arch(Some("x86_64".to_string()), None), Err(UpstreamError::ArchitectureUnknown));
    assert_eq!(get_arch(None, None), Err(UpstreamError::ArchitectureUnknown));
}

#[test]
fn downloads_name_the_url_and_the_directory() {
    let packages = vec![
        ("opencv".to_string(), "4.3.0".to_string()),
        ("libpng".to_string(), "0.1.0".to_string()),
    ];
    let plan = download_packages(
        &packages,
        Some("x86_64".to_string()),
        Some("linux".to_string()),
        "/home/alice/.cppbuild",
    )
    .unwrap();
    assert_eq!(plan.len(), 2);
    assert_eq!(plan[0].url, "http://localhost/cppbuild/x86_64-linux/opencv-4.3.0.tar.gz");
    assert_eq!(plan[0].directory, "/home/alice/.cppbuild/opencv-4.3.0/");
    assert_eq!(plan[1].url, "http://localhost/cppbuild/x86_64-linux/libpng-0.1.0.tar.gz");
    assert_eq!(plan[1].directory, "/home/alice/.cppbuild/libpng-0.1.0/");
}

#[test]
fn downloads_need_the_platform_only_when_there_are_any() {
    let packages = vec![("opencv".to_string(), "4.3.0".to_string())];
    assert_eq!(
        download_packages(&packages, None, Some("linux".to_string()), "/d").err(),
        Some(UpstreamError::ArchitectureUnknown)
    );
    assert!(download_packages(&[], None, None, "/d").unwrap().is_empty());
    assert!(download_packages(&[], Some("a".to_string()), Some("b".to_string()), "/d")
        .unwrap()
        .is_empty());
}

#[test]
fn publishing_depends_on_the_kind_of_package() {
    match generate_package(PackageType::CppBuild, "./demo") {
        PackageAction::Archive { root } => assert_eq!(root, "./demo"),
        other => panic!("unexpected action {:?}", other),
    }
    match generate_package(PackageType::PkgConfig, "opencv") {
        PackageAction::Probe { library } => assert_eq!(library, "opencv"),
        other => panic!("unexpected action {:?}", other),
    }
    for kind in [PackageType::Make, PackageType::Shell, PackageType::Raw] {
        assert!(matches!(generate_package(kind, "x"), PackageAction::Nothing));
    }
}

#[test]
fn archive_leaves_out_the_target_directory_and_what_is_no_file() {
    let walked = vec![
        entry(".", false),
        entry("./build.toml", true),
        entry("./src", false),
        entry("./src/main.cpp", true),
        entry("./target", false),
        entry("./target/demo", true),
        entry("./src/retarget.cpp", true),
        entry("./headers/targe.h", true),
    ];
    let plan = compress(".", "demo", "0.1.0", &walked);
    assert_eq!(plan.tar_path, "./target/demo-0.1.0.tar");
    assert_eq!(plan.archive_path, "./target/demo-0.1.0.tar.gz");
    assert_eq!(plan.files, strings(&["./build.toml", "./src/main.cpp", "./headers/targe.h"]));
    let empty = compress("/p", "n", "v", &vec![]);
    assert!(empty.files.is_empty());
    assert_eq!(empty.archive_path, "/p/target/n-v.tar.gz");
}

#[test]
fn library_files_are_looked_for_under_every_link_path() {
    let files = library_candidates(&strings(&["/usr/lib", "/opt/lib"]), &strings(&["png", "z"]));
    assert_eq!(files, strings(&["/usr/lib/png", "/usr/lib/z", "/opt/lib/png", "/opt/lib/z"]));
    assert!(library_candidates(&vec![], &strings(&["png"])).is_empty());
    assert!(library_candidates(&strings(&["/usr/lib"]), &vec![]).is_empty());
}

#[test]
fn data_directory_lies_under_home() {
    assert_eq!(data_dir_under("/home/alice"), "/home/alice/.cppbuild");
    match (program_data(), dirs::home_dir()) {
        (Some(directory), Some(home)) => {
            assert_eq!(directory, format!("{}/.cppbuild", home.display()));
        }
        (None, None) => {}
        other => panic!("home directory and data directory disagree: {:?}", other),
    }
}

#[test]
fn data_directory_needs_a_home_directory() {
    assert_eq!(data_dir_for(Some("/home/bob".to_string())), Some("/home/bob/.cppbuild".to_string()));
    assert_eq!(data_dir_for(Some(String::new())), Some("/.cppbuild".to_string()));
    assert_eq!(data_dir_for(None), None);
}

#[test]
fn unpack_decompresses_a_gzip_stream() {
    let stream: Vec<u8> = vec![
        31, 139, 8, 0, 123, 0, 0, 0, 0, 3, 1, 12, 0, 243, 255, 72, 101, 108, 108, 111, 32, 87, 111,
        114, 108, 100, 33, 163, 28, 41, 28, 12, 0, 0, 0,
    ];
    assert_eq!(unpack(&stream), Ok(b"Hello World!".to_vec()));
    assert_eq!(unpack(b"Hello World!"), Err(UpstreamError::NotCompressed));
    assert_eq!(unpack(&[]), Err(UpstreamError::NotCompressed));
    // a stream that is cut short is no stream
    assert_eq!(unpack(&stream[..20]), Err(UpstreamError::NotCompressed));
}

/// A gzip stream of `blocks` stored blocks that hold no data, the last of
/// them marked final, which decompresses to nothing.
fn empty_blocks(blocks: usize) -> Vec<u8> {
    let mut stream: Vec<u8> = vec![31, 139, 8, 0, 0, 0, 0, 0, 0, 3];
    for block in 0..blocks {
        let last = if block + 1 == blocks { 1 } else { 0 };
        stream.extend_from_slice(&[last, 0, 0, 255, 255]);
    }
    // the checksum and the length of no data
    stream.extend_from_slice(&[0, 0, 0, 0, 0, 0, 0, 0]);
    stream
}

#[test]
fn unpack_bears_a_long_run_of_empty_blocks() {
    assert_eq!(unpack(&empty_blocks(1)), Ok(vec![]));
    assert_eq!(unpack(&empty_blocks(3)), Ok(vec![]));
    let stream = empty_blocks(1_000_000);
    assert_eq!(stream.len(), 5_000_018);
    assert_eq!(unpack(&stream), Ok(vec![]));
    // the same run without a final block is cut short
    let mut open = empty_blocks(1_000_000);
    let at = open.len() - 13;
    open[at] = 0;
    assert_eq!(unpack(&open), Err(UpstreamError::NotCompressed));
}

/// A gzip stream of `blocks` blocks in the fixed Huffman code that hold
/// nothing but their end mark, the last of them marked final.
fn empty_coded_blocks(blocks: usize) -> Vec<u8> {
    let mut stream: Vec<u8> = vec![31, 139, 8, 0, 0, 0, 0, 0, 0, 3];
    let mut bits: Vec<bool> = Vec::new();
    for block in 0..blocks {
        // the final mark, the kind of block (01, low bit first), seven zero bits of end mark
        bits.push(block + 1 == blocks);
        bits.push(true);
        bits.extend_from_slice(&[false; 8]);
    }
    for byte in bits.chunks(8) {
        let mut value = 0u8;
        for (place, bit) in byte.iter().enumerate() {
            if *bit {
                value |= 1 << place;
            }
        }
        stream.push(value);
    }
    stream.extend_from_slice(&[0, 0, 0, 0, 0, 0, 0, 0]);
    stream
}

#[test]
fn unpack_bears_a_long_run_of_empty_coded_blocks() {
    assert_eq!(unpack(&empty_coded_blocks(1)), Ok(vec![]));
    assert_eq!(unpack(&empty_coded_blocks(5)), Ok(vec![]));
    assert_eq!(unpack(&empty_coded_blocks(400_000)), Ok(vec![]));
}

#[test]
fn unpack_reads_data_after_empty_blocks() {
    // two empty stored blocks, then a final stored block of three bytes
    let mut stream: Vec<u8> = vec![31, 139, 8, 0, 0, 0, 0, 0, 0, 3];
    stream.extend_from_slice(&[0, 0, 0, 255, 255]);
    stream.extend_from_slice(&[0, 0, 0, 255, 255]);
    stream.extend_from_slice(&[1, 3, 0, 252, 255, b'a', b'b', b'c']);
    // the checksum of "abc" and its length
    stream.extend_from_slice(&[0xc2, 0x41, 0x24, 0x35, 3, 0, 0, 0]);
    assert_eq!(unpack(&stream), Ok(b"abc".to_vec()));
    // a wrong checksum is refused
    let at = stream.len() - 8;
    stream[at] ^= 1;
    assert_eq!(unpack(&stream), Err(UpstreamError::NotCompressed));
}

#[test]
fn pack_and_unpack_agree_on_a_large_archive() {
    let mut state: u32 = 12345;
    let data: Vec<u8> = (0..300_000)
        .map(|i| {
            state = state.wrapping_mul(1_103_515_245).wrapping_add(12345);
            if i % 3 == 0 { (state >> 16) as u8 } else { (i % 251) as u8 }
        })
        .collect();
    let stream = pack(&data).unwrap();
    assert_eq!(unpack(&stream), Ok(data));
}

#[test]
fn pack_makes_a_stream_that_unpacks_to_the_data() {
    let data: Vec<u8> = (0..2000u32).map(|i| (i % 7) as u8).collect();
    let stream = pack(&data).unwrap();
    assert_ne!(stream, data);
    assert_eq!(&stream[..2], &[31, 139]);
    assert_eq!(unpack(&stream), Ok(data));
    let empty = pack(&[]).unwrap();
    assert_eq!(unpack(&empty), Ok(vec![]));
}

#[test]
fn packed_reports_a_failed_encoder() {
    assert_eq!(packed(Some(vec![1, 2, 3])), Ok(vec![1, 2, 3]));
    assert_eq!(packed(None), Err(UpstreamError::CannotCompress));
}

#[test]
fn index_holds_packages_by_name_and_version() {
    let index = Index::new(vec![package("opencv", "4.3.0"), package("png", "1.6")]);
    assert!(index.contains(&package("png", "1.6")));
    assert!(index.contains(&package("opencv", "4.3.0")));
    assert!(!index.contains(&package("opencv", "4.3.1")));
    assert!(!index.contains(&package("jpeg", "1.6")));
    assert!(!Index::new(vec![]).contains(&package("png", "1.6")));
}

#[test]
fn repository_entries_and_versions() {
    let entry = RepoEntry::new("opencv".to_string(), "4.3.0".to_string(), PackageType::PkgConfig);
    assert_eq!(entry.get_name(), "opencv");
    assert_eq!(entry.get_version(), "4.3.0");
    assert_eq!(entry.get_build_type(), PackageType::PkgConfig);
    assert_eq!(Version::new("1.0".to_string()), Version::new("1.0".to_string()));
    assert_ne!(Version::new("1.0".to_string()), Version::new("1.1".to_string()));
}
