use toolbox::orc::binary::{
    lex_less, parse_binary_buf, parse_pe_buf, pe_import_names, search_paths, sorted_unique,
    BinaryInfo,
};
use toolbox::orc::dep_tree::{DepTree, DependencyProbe, ImportResolution};
use toolbox::orc::pe_walk::{tree_line, visit_import, PeWalk};
use toolbox::orc::search::{
    contains_text, first_occurrences, linux_search_dirs, system_lib_dirs, windows_search_dirs,
    TargetArch,
};
use toolbox::orc::text::{join_path, starts_with};
use toolbox::orc::win;
use toolbox::orc::{Platform, ShowOption};

fn owned(x: &str) -> String {
    x.to_string()
}

#[test]
fn starts_with_checks_prefix() {
    assert!(starts_with("api-ms-win-core.dll", "api-ms-win"));
    assert!(starts_with("abc", ""));
    assert!(!starts_with("api", "api-ms-win"));
    assert!(!starts_with("kernel32.dll", "api-ms-win"));
}

#[test]
fn join_path_rules() {
    assert_eq!(join_path("/usr/lib", "libc.so.6"), "/usr/lib/libc.so.6");
    assert_eq!(join_path("/usr/lib/", "libc.so.6"), "/usr/lib/libc.so.6");
    assert_eq!(join_path("", "libc.so.6"), "libc.so.6");
    assert_eq!(join_path("/usr/lib", "/opt/x.so"), "/opt/x.so");
}

#[test]
fn show_option_names() {
    assert_eq!(ShowOption::default_option(), ShowOption::All);
    assert_eq!(ShowOption::All.as_name(), "all");
    assert_eq!(ShowOption::Missing.as_name(), "missing");
}

#[test]
fn dep_tree_root_shows_name() {
    let t = DepTree::new("app", Some(owned("/bin")), 0, None);
    assert_eq!(t.content_all(Platform::Linux), "app");
    assert_eq!(t.content_missing(), "app");
}

#[test]
fn dep_tree_found_library_shows_path() {
    let t = DepTree::new("libc.so.6", Some(owned("/usr/lib")), 1, None);
    assert_eq!(t.content_all(Platform::Linux), "libc.so.6 [\x1b[32m/usr/lib/libc.so.6\x1b[39m]");
    assert_eq!(t.content_missing(), "libc.so.6");
    assert_eq!(t.content(ShowOption::All, Platform::Linux), t.content_all(Platform::Linux));
    assert_eq!(t.content(ShowOption::Missing, Platform::Linux), t.content_missing());
}

#[test]
fn dep_tree_missing_library_is_red() {
    let t = DepTree::new("libfoo.so", None, 2, None);
    assert_eq!(t.content_all(Platform::Linux), "\x1b[31mlibfoo.so\x1b[39m");
    assert_eq!(t.content_missing(), "\x1b[31mlibfoo.so\x1b[39m");
}

#[test]
fn dep_tree_link_shows_target() {
    let t = DepTree::new("libz.so.1", Some(owned("/lib")), 1, Some(owned("libz.so.1.3")));
    assert_eq!(t.content_all(Platform::Linux), "libz.so.1 -> \x1b[32mlibz.so.1.3\x1b[39m");
    assert_eq!(t.content_missing(), "libz.so.1 -> libz.so.1.3");
    let m = DepTree::new("libz.so.1", None, 1, Some(owned("libz.so.1.3")));
    assert_eq!(m.content_all(Platform::Linux), "libz.so.1 -> \x1b[31mlibz.so.1.3\x1b[39m");
    assert_eq!(m.content_missing(), "libz.so.1 -> \x1b[31mlibz.so.1.3\x1b[39m");
}

#[test]
fn dep_tree_depth_limit() {
    let t = DepTree::new("a", Some(owned("/")), 2, None);
    assert!(!t.exceeds_limit(0, 5));
    assert!(!t.exceeds_limit(3, 1));
    assert!(t.exceeds_limit(3, 2));
}

fn resolution(name: &str, base: Option<&str>, probe: DependencyProbe) -> ImportResolution {
    ImportResolution { name: owned(name), base: base.map(owned), target: None, probe }
}

#[test]
fn leaves_all_lists_every_import() {
    let root = DepTree::new("app", Some(owned("/bin")), 0, None);
    let rs = vec![
        resolution("libc.so.6", Some("/lib"), DependencyProbe::Imports { count: 0, any_missing: false }),
        resolution("libgone.so", None, DependencyProbe::Unreadable),
    ];
    let leaves = root.leaves_all_from(0, &rs);
    assert_eq!(leaves.len(), 2);
    assert_eq!(leaves[0].name, "libc.so.6");
    assert_eq!(leaves[0].base.as_deref(), Some("/lib"));
    assert_eq!(leaves[0].depth, 1);
    assert_eq!(leaves[1].name, "libgone.so");
    assert_eq!(leaves[1].base, None);
}

#[test]
fn leaves_stop_at_limit_and_missing_nodes() {
    let rs = vec![resolution("x", Some("/lib"), DependencyProbe::Unparsable)];
    let deep = DepTree::new("a", Some(owned("/lib")), 2, None);
    assert!(deep.leaves_all_from(2, &rs).is_empty());
    assert!(deep.leaves_missing_from(2, Platform::Linux, &rs).is_empty());
    let missing = DepTree::new("a", None, 1, None);
    assert!(missing.leaves_all_from(0, &rs).is_empty());
}

#[test]
fn leaves_missing_keeps_only_problems() {
    let root = DepTree::new("app", Some(owned("/bin")), 0, None);
    let rs = vec![
        resolution("ok.so", Some("/lib"), DependencyProbe::Imports { count: 2, any_missing: false }),
        resolution("gone.so", None, DependencyProbe::Unparsable),
        resolution("broken.so", Some("/lib"), DependencyProbe::Unreadable),
        resolution("weird.so", Some("/lib"), DependencyProbe::Unparsable),
        resolution("parent.so", Some("/lib"), DependencyProbe::Imports { count: 3, any_missing: true }),
    ];
    let leaves = root.leaves_missing_from(0, Platform::Linux, &rs);
    let names: Vec<&str> = leaves.iter().map(|t| t.name.as_str()).collect();
    assert_eq!(names, vec!["gone.so", "broken.so", "parent.so"]);
    assert_eq!(leaves[1].base, None);
    assert_eq!(leaves[2].base.as_deref(), Some("/lib"));
    // Within two levels of the limit, found imports are not probed.
    let near = root.leaves_missing_from(1, Platform::Linux, &rs);
    let names: Vec<&str> = near.iter().map(|t| t.name.as_str()).collect();
    assert_eq!(names, vec!["gone.so"]);
}

#[test]
fn win_dep_tree_lines() {
    let root = win::DepTree::new(owned("app.exe"), Some(owned("C:/app")), 0);
    assert_eq!(root.content_all(), "app.exe");
    let found = win::DepTree::new(owned("kernel32.dll"), Some(owned("C:/Windows/System32")), 1);
    assert_eq!(
        found.content_all(),
        "\x1b[32mkernel32.dll -> C:/Windows/System32/kernel32.dll\x1b[39m"
    );
    assert_eq!(found.content_missing(), "kernel32.dll");
    let api = win::DepTree::new(owned("api-ms-win-core-file-l1-1-0.dll"), None, 1);
    assert_eq!(
        api.content_all(),
        "\x1b[32mapi-ms-win-core-file-l1-1-0.dll\x1b[39m \x1b[32m->\x1b[39m \x1b[1m\x1b[33mVirtualImport\x1b[39m\x1b[0m"
    );
    let gone = win::DepTree::new(owned("foo.dll"), None, 1);
    assert_eq!(gone.content_all(), "\x1b[31mfoo.dll\x1b[39m");
    assert_eq!(gone.content_missing(), "\x1b[31mfoo.dll\x1b[39m");
}

#[test]
fn lex_less_orders_bytes() {
    assert!(lex_less(b"abc", b"abd"));
    assert!(lex_less(b"ab", b"abc"));
    assert!(!lex_less(b"abc", b"abc"));
    assert!(!lex_less(b"b", b"abc"));
    assert!(lex_less(b"B", b"a"));
}

#[test]
fn sorted_unique_sorts_and_dedups() {
    let names = vec![owned("libm.so.6"), owned("libc.so.6"), owned("libm.so.6"), owned("ld-linux.so.2"), owned("libc.so.6")];
    assert_eq!(sorted_unique(&names), vec![owned("ld-linux.so.2"), owned("libc.so.6"), owned("libm.so.6")]);
    assert!(sorted_unique(&Vec::new()).is_empty());
}

#[test]
fn parse_binary_buf_rejects_garbage() {
    assert!(parse_binary_buf(b"definitely not an ELF image").is_none());
    assert!(parse_binary_buf(&[]).is_none());
}

#[test]
fn search_paths_prefer_runpath() {
    let info = BinaryInfo { imports: vec![], rpaths: vec![owned("/r")], runpaths: vec![owned("/run")] };
    assert_eq!(search_paths(&info), &vec![owned("/run")]);
    let info = BinaryInfo { imports: vec![], rpaths: vec![owned("/r")], runpaths: vec![] };
    assert_eq!(search_paths(&info), &vec![owned("/r")]);
}

#[test]
fn system_dirs_per_arch() {
    let classic = ["/lib", "/lib64", "/usr/lib", "/usr/lib64", "/usr/local/lib", "/usr/local/lib64"];
    assert_eq!(system_lib_dirs(TargetArch::Other), classic.to_vec());
    let mut x86 = classic.to_vec();
    x86.extend(["/lib/x86_64-linux-gnu", "/usr/lib/x86_64-linux-gnu"]);
    assert_eq!(system_lib_dirs(TargetArch::X86_64), x86);
    let mut arm = classic.to_vec();
    arm.extend(["/lib/aarch64-linux-gnu", "/usr/lib/aarch64-linux-gnu"]);
    assert_eq!(system_lib_dirs(TargetArch::Aarch64), arm);
}

#[test]
fn linux_search_order() {
    let ld = vec![owned("/opt/ld")];
    let rpaths = vec![owned("/r1"), owned("/r2")];
    let runpaths = vec![owned("/run")];
    assert_eq!(
        linux_search_dirs("/app", &ld, &rpaths, &runpaths, false, TargetArch::Other),
        vec![owned("/app"), owned("/opt/ld"), owned("/run")]
    );
    assert_eq!(
        linux_search_dirs("/app", &ld, &rpaths, &Vec::new(), false, TargetArch::Other),
        vec![owned("/app"), owned("/opt/ld"), owned("/r1"), owned("/r2")]
    );
    let all = linux_search_dirs("/app", &Vec::new(), &Vec::new(), &Vec::new(), true, TargetArch::X86_64);
    assert_eq!(all.len(), 9);
    assert_eq!(all[0], "/app");
    assert_eq!(all[1], "/lib");
    assert_eq!(all[8], "/usr/lib/x86_64-linux-gnu");
}

#[test]
fn windows_search_order() {
    assert_eq!(
        windows_search_dirs("C:/app", &vec![owned("C:/Windows"), owned("C:/bin")]),
        vec![owned("C:/app"), owned("C:/Windows"), owned("C:/bin")]
    );
}

#[test]
fn first_occurrences_keep_order() {
    let names = vec![owned("b.dll"), owned("a.dll"), owned("b.dll"), owned("c.dll"), owned("a.dll")];
    assert_eq!(first_occurrences(&names), vec![owned("b.dll"), owned("a.dll"), owned("c.dll")]);
    assert!(contains_text(&names, "c.dll"));
    assert!(!contains_text(&names, "C.DLL"));
}

#[test]
fn visit_import_ignores_case() {
    let mut visited = Vec::new();
    assert_eq!(visit_import("KERNEL32.dll", &mut visited), Some(owned("kernel32.dll")));
    assert_eq!(visit_import("kernel32.DLL", &mut visited), None);
    assert_eq!(visit_import("User32.dll", &mut visited), Some(owned("user32.dll")));
    assert_eq!(visited, vec![owned("kernel32.dll"), owned("user32.dll")]);
}

#[test]
fn tree_lines_indent_two_spaces() {
    assert_eq!(tree_line(0, "a.dll"), "a.dll");
    assert_eq!(tree_line(2, "b.dll"), "    b.dll");
}

#[test]
fn win_leaves_from_resolved_imports() {
    let node = win::DepTree::new(owned("app.exe"), Some(owned("C:/app")), 1);
    assert!(node.scans_imports(0));
    assert!(node.scans_imports(2));
    assert!(!node.scans_imports(1));
    let missing = win::DepTree::new(owned("x.dll"), None, 1);
    assert!(!missing.scans_imports(0));
    assert!(node.leaves_from(&Vec::new()).is_none());
    let leaves = node
        .leaves_from(&vec![(owned("a.dll"), Some(owned("C:/app"))), (owned("b.dll"), None)])
        .unwrap();
    assert_eq!(leaves.len(), 2);
    assert_eq!(leaves[0].name, "a.dll");
    assert_eq!(leaves[0].base.as_deref(), Some("C:/app"));
    assert_eq!(leaves[0].depth, 2);
    assert_eq!(leaves[1].base, None);
}

fn bare_elf_header() -> Vec<u8> {
    let mut h = vec![0x7f, b'E', b'L', b'F', 2, 1, 1, 0, 0, 0, 0, 0, 0, 0, 0, 0];
    h.extend_from_slice(&2u16.to_le_bytes()); // executable
    h.extend_from_slice(&0x3eu16.to_le_bytes()); // x86-64
    h.extend_from_slice(&1u32.to_le_bytes());
    h.extend_from_slice(&0u64.to_le_bytes()); // entry
    h.extend_from_slice(&0u64.to_le_bytes()); // program headers
    h.extend_from_slice(&0u64.to_le_bytes()); // section headers
    h.extend_from_slice(&0u32.to_le_bytes());
    h.extend_from_slice(&64u16.to_le_bytes());
    h.extend_from_slice(&56u16.to_le_bytes());
    h.extend_from_slice(&0u16.to_le_bytes());
    h.extend_from_slice(&64u16.to_le_bytes());
    h.extend_from_slice(&0u16.to_le_bytes());
    h.extend_from_slice(&0u16.to_le_bytes());
    h
}

#[test]
fn parse_binary_buf_reads_bare_elf() {
    let info = parse_binary_buf(&bare_elf_header()).expect("a bare ELF header parses");
    assert!(info.imports.is_empty());
    assert!(info.rpaths.is_empty());
    assert!(info.runpaths.is_empty());
}

#[test]
fn sorted_unique_ignores_order_and_repeats() {
    let a = vec![owned("libz.so"), owned("libc.so"), owned("libm.so")];
    let b = vec![owned("libm.so"), owned("libc.so"), owned("libz.so"), owned("libc.so")];
    assert_eq!(sorted_unique(&a), sorted_unique(&b));
}

#[test]
fn missing_view_keeps_every_missing_import() {
    let root = DepTree::new("app", Some(owned("/bin")), 0, None);
    let rs = vec![
        resolution("a.so", None, DependencyProbe::Unparsable),
        resolution("b.so", Some("/lib"), DependencyProbe::Imports { count: 1, any_missing: false }),
        resolution("c.so", None, DependencyProbe::Unreadable),
    ];
    for limit in [0, 1, 2, 5] {
        let names: Vec<String> = root.leaves_missing_from(limit, Platform::Linux, &rs).into_iter().map(|t| t.name).collect();
        assert!(names.contains(&owned("a.so")));
        assert!(names.contains(&owned("c.so")));
        assert!(!names.contains(&owned("b.so")));
    }
}

fn put_u16(b: &mut [u8], at: usize, v: u16) {
    b[at..at + 2].copy_from_slice(&v.to_le_bytes());
}

fn put_u32(b: &mut [u8], at: usize, v: u32) {
    b[at..at + 4].copy_from_slice(&v.to_le_bytes());
}

/// A small 32-bit PE image whose one section holds an import table:
/// `KERNEL32.dll` (two functions) and an API-set DLL (one function).
fn tiny_pe() -> Vec<u8> {
    let mut b = vec![0u8; 0x400];
    b[0..2].copy_from_slice(b"MZ");
    put_u32(&mut b, 0x3c, 0x40);
    b[0x40..0x44].copy_from_slice(b"PE\0\0");
    // COFF header: i386, one section, 0xE0 bytes of optional header.
    put_u16(&mut b, 0x44, 0x14c);
    put_u16(&mut b, 0x46, 1);
    put_u16(&mut b, 0x54, 0xE0);
    put_u16(&mut b, 0x56, 0x0102);
    // Optional header (PE32).
    let o = 0x58;
    put_u16(&mut b, o, 0x10b);
    put_u32(&mut b, o + 4, 0x200);
    put_u32(&mut b, o + 16, 0x1000);
    put_u32(&mut b, o + 20, 0x1000);
    put_u32(&mut b, o + 24, 0x1000);
    put_u32(&mut b, o + 28, 0x400000);
    put_u32(&mut b, o + 32, 0x1000);
    put_u32(&mut b, o + 36, 0x200);
    put_u16(&mut b, o + 40, 6);
    put_u16(&mut b, o + 48, 6);
    put_u32(&mut b, o + 56, 0x2000);
    put_u32(&mut b, o + 60, 0x200);
    put_u16(&mut b, o + 68, 3);
    put_u32(&mut b, o + 72, 0x100000);
    put_u32(&mut b, o + 76, 0x1000);
    put_u32(&mut b, o + 80, 0x100000);
    put_u32(&mut b, o + 84, 0x1000);
    put_u32(&mut b, o + 92, 16);
    // Import directory.
    put_u32(&mut b, o + 96 + 8, 0x1000);
    put_u32(&mut b, o + 96 + 12, 60);
    // Section header `.idata`: RVA 0x1000 at file offset 0x200.
    let sh = o + 0xE0;
    b[sh..sh + 6].copy_from_slice(b".idata");
    put_u32(&mut b, sh + 8, 0x200);
    put_u32(&mut b, sh + 12, 0x1000);
    put_u32(&mut b, sh + 16, 0x200);
    put_u32(&mut b, sh + 20, 0x200);
    put_u32(&mut b, sh + 36, 0xC000_0040);
    let at = |rva: usize| 0x200 + rva - 0x1000;
    // Import descriptors, then a null one.
    put_u32(&mut b, at(0x1000), 0x1100);
    put_u32(&mut b, at(0x100c), 0x1180);
    put_u32(&mut b, at(0x1010), 0x1140);
    put_u32(&mut b, at(0x1014), 0x1110);
    put_u32(&mut b, at(0x1020), 0x11a0);
    put_u32(&mut b, at(0x1024), 0x1150);
    // Lookup and address tables.
    for table in [0x1100, 0x1140] {
        put_u32(&mut b, at(table), 0x11d0);
        put_u32(&mut b, at(table + 4), 0x11e0);
    }
    for table in [0x1110, 0x1150] {
        put_u32(&mut b, at(table), 0x11f0);
    }
    let names: [(usize, &[u8]); 5] = [
        (0x1180, b"KERNEL32.dll"),
        (0x11a0, b"api-ms-win-core-file-l1-1-0.dll"),
        (0x11d2, b"ExitProcess"),
        (0x11e2, b"Sleep"),
        (0x11f2, b"ReadFile"),
    ];
    for (rva, name) in names {
        b[at(rva)..at(rva) + name.len()].copy_from_slice(name);
    }
    b
}

#[test]
fn pe_import_names_lists_every_entry() {
    let names = pe_import_names(&tiny_pe()).expect("the image parses");
    assert_eq!(
        names,
        vec![
            owned("KERNEL32.dll"),
            owned("KERNEL32.dll"),
            owned("api-ms-win-core-file-l1-1-0.dll"),
        ]
    );
    assert!(pe_import_names(b"MZ not a PE image").is_none());
}

#[test]
fn parse_pe_buf_sorts_and_dedups_dlls() {
    let info = parse_pe_buf(&tiny_pe()).expect("the image parses");
    assert_eq!(
        info.imports,
        vec![owned("KERNEL32.dll"), owned("api-ms-win-core-file-l1-1-0.dll")]
    );
    assert!(info.rpaths.is_empty());
    assert!(info.runpaths.is_empty());
    assert!(parse_pe_buf(&[0u8; 16]).is_none());
}

#[test]
fn windows_marks_api_set_dll_as_virtual_import() {
    let t = DepTree::new("api-ms-win-core-file-l1-1-0.dll", None, 1, None);
    assert_eq!(
        t.content_all(Platform::Windows),
        "api-ms-win-core-file-l1-1-0.dll [\x1b[34mVirtualImport\x1b[39m]"
    );
    assert_eq!(t.content_all(Platform::Linux), "\x1b[31mapi-ms-win-core-file-l1-1-0.dll\x1b[39m");
    let other = DepTree::new("foo.dll", None, 1, None);
    assert_eq!(other.content_all(Platform::Windows), "\x1b[31mfoo.dll\x1b[39m");
}

#[test]
fn windows_missing_view_skips_api_set_dlls() {
    let root = DepTree::new("app.exe", Some(owned("C:/app")), 0, None);
    let rs = vec![
        ImportResolution {
            name: owned("api-ms-win-core-file-l1-1-0.dll"),
            base: None,
            target: None,
            probe: DependencyProbe::Unparsable,
        },
        ImportResolution { name: owned("foo.dll"), base: None, target: None, probe: DependencyProbe::Unparsable },
    ];
    let win: Vec<String> =
        root.leaves_missing_from(0, Platform::Windows, &rs).into_iter().map(|t| t.name).collect();
    assert_eq!(win, vec![owned("foo.dll")]);
    let linux: Vec<String> =
        root.leaves_missing_from(0, Platform::Linux, &rs).into_iter().map(|t| t.name).collect();
    assert_eq!(linux, vec![owned("api-ms-win-core-file-l1-1-0.dll"), owned("foo.dll")]);
}

#[test]
fn visit_import_lowers_only_ascii_letters() {
    let mut visited = Vec::new();
    assert_eq!(
        visit_import("ÄBCXYZ_az-09.DLL", &mut visited),
        Some(owned("Äbcxyz_az-09.dll"))
    );
    assert_eq!(visited, vec![owned("Äbcxyz_az-09.dll")]);
}

#[test]
fn pe_walk_goes_depth_first_and_shows_each_dll_once() {
    let mut walk = PeWalk::new();
    walk.enter(owned("C:/app"), Some(vec![owned("A.dll"), owned("B.DLL"), owned("a.dll")]));
    let s1 = walk.next_step().expect("a first import");
    assert_eq!((s1.depth, s1.dll.as_str(), s1.dir.as_str(), s1.line.as_str()), (0, "a.dll", "C:/app", "a.dll"));
    walk.enter(owned("C:/sys"), Some(vec![owned("b.dll"), owned("C.dll")]));
    let s2 = walk.next_step().expect("an import of a.dll");
    assert_eq!((s2.depth, s2.dll.as_str(), s2.dir.as_str(), s2.line.as_str()), (1, "b.dll", "C:/sys", "  b.dll"));
    walk.enter(owned("C:/sys"), None);
    let s3 = walk.next_step().expect("a second import of a.dll");
    assert_eq!((s3.depth, s3.dll.as_str(), s3.line.as_str()), (1, "c.dll", "  c.dll"));
    assert!(walk.next_step().is_none());
    assert_eq!(walk.visited, vec![owned("a.dll"), owned("b.dll"), owned("c.dll")]);
    assert!(walk.frames.is_empty());
}
