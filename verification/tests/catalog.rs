use std::cell::RefCell;
use std::collections::HashMap;

use dll_deps::dll_database::DllDatabase;
use dll_deps::pe::file::File;
use dll_deps::registry::{string_value, EnumerationStep, RegistryError, RootKey, ValueNames};
use dll_deps::search_path::{
    directory_from_buffer, umbrella_module, DirectoryListing, SearchPath,
};
use dll_deps::tree_printer::{render_list, write_name_line, write_prefix, TreePrinter};
use dll_deps::walker::{walk_dlls, Walker};
use dll_deps::DllType;

/// A 32-bit image that imports the given modules.
fn image(names: &[&str]) -> Vec<u8> {
    let mut data = vec![0u8; 0x400];
    data[0x3c..0x40].copy_from_slice(&0x40u32.to_le_bytes());
    data[0x40..0x44].copy_from_slice(b"PE\0\0");
    data[0x46..0x48].copy_from_slice(&1u16.to_le_bytes());
    data[0x58..0x5a].copy_from_slice(&0x10bu16.to_le_bytes());
    data[0x58 + 92..0x58 + 96].copy_from_slice(&2u32.to_le_bytes());
    data[0x58 + 104..0x58 + 108].copy_from_slice(&0x1000u32.to_le_bytes());
    data[0xc8 + 8..0xc8 + 12].copy_from_slice(&0x300u32.to_le_bytes());
    data[0xc8 + 12..0xc8 + 16].copy_from_slice(&0x1000u32.to_le_bytes());
    data[0xc8 + 20..0xc8 + 24].copy_from_slice(&0x100u32.to_le_bytes());
    let mut name_at = 0x200;
    for (index, name) in names.iter().enumerate() {
        let entry = 0x100 + 20 * index;
        data[entry..entry + 4].copy_from_slice(&1u32.to_le_bytes());
        let rva = 0x1000 + (name_at as u32 - 0x100);
        data[entry + 12..entry + 16].copy_from_slice(&rva.to_le_bytes());
        data[name_at..name_at + name.len()].copy_from_slice(name.as_bytes());
        name_at += name.len() + 1;
    }
    data
}

fn listing(files: &[(&str, &str)]) -> DirectoryListing {
    let mut listing = DirectoryListing::new();
    for (name, location) in files {
        listing.insert(name, location);
    }
    listing
}

/// A catalog over a snapshot whose base directory holds the given files.
fn database(base: &[(&str, &str)]) -> DllDatabase {
    let search_path = SearchPath::new(
        None,
        None,
        Some(listing(base)),
        Some(listing(&[("kernel32.dll", "/sys/kernel32.dll")])),
        Some(DirectoryListing::new()),
        vec![],
        Some(DirectoryListing::new()),
    )
    .unwrap();
    DllDatabase::new(search_path)
}

fn names_of(file: &File) -> Vec<String> {
    file.imports.iter().map(|import| import.name.clone()).collect()
}

fn strings(names: &[&str]) -> Vec<String> {
    names.iter().map(|name| (*name).to_owned()).collect()
}

/// The files of a program `app.exe` that imports `Core.DLL` and a forwarding
/// module; `core.dll` imports `app.exe`, itself, `kernel32.dll` and a module
/// that is nowhere; `kernel32.dll` is no image.
fn files() -> HashMap<String, Vec<u8>> {
    let mut files = HashMap::new();
    files.insert(
        "/app/app.exe".to_owned(),
        image(&["Core.DLL", "api-ms-win-core-file-l1-1-0.dll"]),
    );
    files.insert(
        "/app/core.dll".to_owned(),
        image(&["APP.EXE", "core.dll", "KERNEL32.dll", "missing.dll"]),
    );
    files.insert("/sys/kernel32.dll".to_owned(), vec![1, 2, 3]);
    files
}

fn program() -> DllDatabase {
    database(&[("app.exe", "/app/app.exe"), ("core.dll", "/app/core.dll")])
}

#[test]
fn parse_dll_of_contents() {
    let data = image(&["a.dll", "b.dll"]);
    let info = DllDatabase::parse_dll("/x/y.dll".to_owned(), DllType::Path, Some(&data)).unwrap();
    assert_eq!(info.path, "/x/y.dll");
    assert_eq!(info.dll_type, DllType::Path);
    assert_eq!(names_of(&info.file), strings(&["a.dll", "b.dll"]));
    assert!(DllDatabase::parse_dll("/x/y.dll".to_owned(), DllType::Path, None).is_none());
    assert!(DllDatabase::parse_dll("/x/y.dll".to_owned(), DllType::User, Some(&[0u8; 10])).is_none());
}

#[test]
fn parse_dll_of_a_forwarding_module() {
    let info = DllDatabase::parse_dll(String::new(), DllType::Umbrella, None).unwrap();
    assert_eq!(info.path, "");
    assert_eq!(info.dll_type, DllType::Umbrella);
    assert_eq!(info.file, File::new());
    let data = image(&["a.dll"]);
    let info = DllDatabase::parse_dll(String::new(), DllType::Umbrella, Some(&data)).unwrap();
    assert_eq!(info.file, File::new());
}

#[test]
fn search_dll_resolves_once() {
    let mut database = database(&[("a.dll", "/app/a.dll")]);
    assert_eq!(database.file_needed("A.dll"), Some("/app/a.dll".to_owned()));
    assert!(database.get_dll_info("a.dll").is_none());
    assert!(!database.is_resolved(&"a.dll".to_owned()));
    let first = image(&["first.dll"]);
    let second = image(&["second.dll"]);
    {
        let info = database.search_dll("A.dll", Some(&first)).unwrap();
        assert_eq!(info.path, "/app/a.dll");
        assert_eq!(info.dll_type, DllType::User);
        assert_eq!(names_of(&info.file), strings(&["first.dll"]));
    }
    assert!(database.is_resolved(&"a.dll".to_owned()));
    assert_eq!(database.file_needed("a.dll"), None);
    {
        let info = database.search_dll("a.DLL", Some(&second)).unwrap();
        assert_eq!(names_of(&info.file), strings(&["first.dll"]));
    }
    assert_eq!(names_of(&database.get_dll_info("A.DLL").unwrap().file), strings(&["first.dll"]));
    assert_eq!(database.get_all_dlls(), strings(&["a.dll"]));
}

#[test]
fn search_dll_keeps_a_failure() {
    let mut database = database(&[("a.dll", "/app/a.dll")]);
    assert!(database.search_dll("a.dll", None).is_none());
    assert_eq!(database.file_needed("a.dll"), None);
    let data = image(&["b.dll"]);
    assert!(database.search_dll("a.dll", Some(&data)).is_none());
    assert!(database.get_dll_info("a.dll").is_none());
    assert!(database.search_dll("nowhere.dll", Some(&data)).is_none());
    assert!(database.search_dll("kernel32.dll", Some(&[0u8; 64])).is_none());
    assert_eq!(database.get_all_dlls(), strings(&["a.dll", "nowhere.dll", "kernel32.dll"]));
}

#[test]
fn search_dll_of_a_forwarding_module_needs_no_file() {
    let mut database = database(&[]);
    assert_eq!(database.file_needed("api-ms-win-core-sysinfo-l1-2-3.dll"), None);
    assert_eq!(database.file_needed("nowhere.dll"), None);
    let info = database.search_dll("API-ms-win-core-sysinfo-l1-2-3.dll", None).unwrap();
    assert_eq!(info.path, "");
    assert_eq!(info.dll_type, DllType::Umbrella);
    assert_eq!(info.file, File::new());
    assert_eq!(database.get_all_dlls(), strings(&["api-ms-win-core-sysinfo-l1-2-3.dll"]));
}

#[test]
fn database_knows_its_snapshot() {
    let database = database(&[("a.dll", "/app/a.dll")]);
    assert_eq!(
        database.search_path().search("A.DLL"),
        Some(("/app/a.dll".to_owned(), DllType::User))
    );
    assert_eq!(database.get_all_dlls(), strings(&[]));
    assert_eq!(database.file_needed_by_key(&"a.dll".to_owned()), Some("/app/a.dll".to_owned()));
    assert_eq!(database.file_needed_by_key(&"A.dll".to_owned()), None);
}

#[test]
fn walk_of_a_cycle_ends_and_visits_each_module_once() {
    let files = files();
    let mut database = program();
    let reads = RefCell::new(Vec::new());
    let visited = walk_dlls(&mut database, "App.exe", |path: &String| {
        reads.borrow_mut().push(path.clone());
        files.get(path).cloned()
    });
    assert_eq!(
        visited,
        strings(&[
            "app.exe",
            "api-ms-win-core-file-l1-1-0.dll",
            "core.dll",
            "missing.dll",
            "kernel32.dll",
        ])
    );
    assert_eq!(database.get_all_dlls(), visited);
    assert_eq!(
        reads.into_inner(),
        strings(&["/app/app.exe", "/app/core.dll", "/sys/kernel32.dll"])
    );
    assert_eq!(
        names_of(&database.get_dll_info("core.dll").unwrap().file),
        strings(&["APP.EXE", "core.dll", "KERNEL32.dll", "missing.dll"])
    );
    assert!(database.get_dll_info("kernel32.dll").is_none());
    assert!(database.get_dll_info("missing.dll").is_none());
    assert_eq!(
        database.get_dll_info("api-ms-win-core-file-l1-1-0.dll").unwrap().dll_type,
        DllType::Umbrella
    );
}

#[test]
fn walk_of_a_module_that_imports_itself() {
    let mut database = database(&[("self.dll", "/app/self.dll")]);
    let data = image(&["self.dll", "SELF.DLL", "Self.dll"]);
    let visited = walk_dlls(&mut database, "self.dll", |_path: &String| Some(data.clone()));
    assert_eq!(visited, strings(&["self.dll"]));
    assert_eq!(database.get_all_dlls(), strings(&["self.dll"]));
}

#[test]
fn walk_of_an_unknown_root() {
    let mut database = database(&[]);
    let visited = walk_dlls(&mut database, "Nowhere.exe", |_path: &String| None);
    assert_eq!(visited, strings(&["nowhere.exe"]));
    assert!(database.get_dll_info("nowhere.exe").is_none());
    assert!(database.is_resolved(&"nowhere.exe".to_owned()));
}

#[test]
fn walk_twice_reads_nothing_again() {
    let files = files();
    let mut database = program();
    let first = walk_dlls(&mut database, "app.exe", |path: &String| files.get(path).cloned());
    let reads = RefCell::new(0);
    let second = walk_dlls(&mut database, "core.dll", |path: &String| {
        *reads.borrow_mut() += 1;
        files.get(path).cloned()
    });
    assert_eq!(reads.into_inner(), 0);
    assert_eq!(first.len(), 5);
    assert_eq!(
        second,
        strings(&[
            "core.dll",
            "missing.dll",
            "kernel32.dll",
            "app.exe",
            "api-ms-win-core-file-l1-1-0.dll",
        ])
    );
    assert_eq!(database.get_all_dlls(), first);
}

#[test]
fn walker_step_by_step() {
    let files = files();
    let mut database = program();
    let mut walker = Walker::new("APP.exe");
    assert_eq!(walker.next(), Some(&"app.exe".to_owned()));
    assert_eq!(walker.visited(), &strings(&[]));
    assert_eq!(database.file_needed_by_key(&"app.exe".to_owned()), Some("/app/app.exe".to_owned()));
    assert!(walker.step(&mut database, Some(&files["/app/app.exe"])));
    assert_eq!(walker.visited(), &strings(&["app.exe"]));
    assert_eq!(walker.next(), Some(&"api-ms-win-core-file-l1-1-0.dll".to_owned()));
    assert!(walker.step(&mut database, None));
    assert_eq!(walker.next(), Some(&"core.dll".to_owned()));
    assert!(walker.step(&mut database, None));
    assert_eq!(walker.next(), None);
    assert!(!walker.step(&mut database, None));
    assert_eq!(
        walker.visited(),
        &strings(&["app.exe", "api-ms-win-core-file-l1-1-0.dll", "core.dll"])
    );
    assert!(database.get_dll_info("core.dll").is_none());
}

#[test]
fn prefix_of_each_depth() {
    let prefix = |depth, last_child| {
        let mut out = "x".to_owned();
        write_prefix(depth, last_child, &mut out);
        out
    };
    assert_eq!(prefix(0, false), "x");
    assert_eq!(prefix(0, true), "x");
    assert_eq!(prefix(1, false), "x├── ");
    assert_eq!(prefix(1, true), "x└── ");
    assert_eq!(prefix(3, false), "x│   │   ├── ");
    assert_eq!(prefix(3, true), "x│   │   └── ");
}

#[test]
fn tree_of_names() {
    let files = files();
    let mut database = program();
    walk_dlls(&mut database, "app.exe", |path: &String| files.get(path).cloned());
    let text = TreePrinter::new(Some(2), false).render(&database, "app.exe", 0, false);
    assert_eq!(
        text,
        "app.exe\n\
         ├── Core.DLL\n\
         │   ├── APP.EXE\n\
         │   ├── core.dll\n\
         │   ├── KERNEL32.dll\n\
         │   └── missing.dll\n\
         └── api-ms-win-core-file-l1-1-0.dll\n"
    );
    let text = TreePrinter::new(Some(0), false).render(&database, "app.exe", 0, false);
    assert_eq!(text, "app.exe\n");
    let text = TreePrinter::new(Some(1), false).render(&database, "App.exe", 0, true);
    assert_eq!(text, "App.exe\n├── Core.DLL\n└── api-ms-win-core-file-l1-1-0.dll\n");
    let text = TreePrinter::new(None, false).render(&database, "kernel32.dll", 2, true);
    assert_eq!(text, "│   └── kernel32.dll\n");
}

#[test]
fn tree_of_paths() {
    let files = files();
    let mut database = program();
    walk_dlls(&mut database, "app.exe", |path: &String| files.get(path).cloned());
    let text = TreePrinter::new(Some(2), true).render(&database, "app.exe", 0, false);
    assert_eq!(
        text,
        "/app/app.exe\n\
         ├── /app/core.dll\n\
         │   ├── /app/app.exe\n\
         │   ├── /app/core.dll\n\
         │   ├── │   └── └── api-ms-win-core-file-l1-1-0.dll\n"
    );
}

#[test]
fn tree_to_a_depth() {
    let mut database = database(&[("self.dll", "/app/self.dll")]);
    let data = image(&["self.dll"]);
    walk_dlls(&mut database, "self.dll", |_path: &String| Some(data.clone()));
    let text = TreePrinter::new(Some(3), false).render(&database, "self.dll", 0, false);
    assert_eq!(text, "self.dll\n└── self.dll\n│   └── self.dll\n│   │   └── self.dll\n");
}

#[test]
fn name_line_of_a_module() {
    let mut database = database(&[("a.dll", "/app/a.dll")]);
    database.search_dll("a.dll", Some(&image(&[])));
    database.search_dll("api-ms-win-core-file-l1-1-0.dll", None);
    let line = |absolute_path, name| {
        let mut out = "> ".to_owned();
        write_name_line(&database, absolute_path, name, &mut out);
        out
    };
    assert_eq!(line(false, "A.dll"), "> A.dll\n");
    assert_eq!(line(true, "A.dll"), "> /app/a.dll\n");
    assert_eq!(line(false, "gone.dll"), "> gone.dll\n");
    assert_eq!(line(true, "gone.dll"), "> ");
    assert_eq!(line(true, "API-ms-win-core-file-l1-1-0.dll"), "> API-ms-win-core-file-l1-1-0.dll\n");
}

#[test]
fn list_of_all_modules() {
    let files = files();
    let mut database = program();
    assert_eq!(render_list(&database, false), "");
    walk_dlls(&mut database, "app.exe", |path: &String| files.get(path).cloned());
    assert_eq!(
        render_list(&database, false),
        "app.exe\napi-ms-win-core-file-l1-1-0.dll\ncore.dll\nmissing.dll\nkernel32.dll\n"
    );
    assert_eq!(
        render_list(&database, true),
        "/app/app.exe\napi-ms-win-core-file-l1-1-0.dll\n/app/core.dll\n"
    );
}

#[test]
fn labels_of_the_kinds() {
    assert_eq!(DllType::User.label(), "user-dll");
    assert_eq!(DllType::Path.label(), "path-dll");
    assert_eq!(DllType::System.label(), "system-dll");
    assert_eq!(DllType::Known.label(), "known-dll");
    assert_eq!(DllType::Umbrella.label(), "umbrella-dll");
}

#[test]
fn registry_error_text() {
    let error = RegistryError::new("Failed to open key: SOFTWARE\\Nothing");
    assert_eq!(error.message(), "Failed to open key: SOFTWARE\\Nothing");
    assert_eq!(error.to_text(), "RegistryError: Failed to open key: SOFTWARE\\Nothing");
    assert_eq!(RegistryError::new("").to_text(), "RegistryError: ");
    assert_ne!(RootKey::LocalMachine, RootKey::CurrentUser);
    assert_eq!(RootKey::Users, RootKey::Users);
}

#[test]
fn string_value_is_decoded_and_trimmed() {
    let units: Vec<u16> = "C:\\Windows\0\0".encode_utf16().collect();
    assert_eq!(string_value(&units), "C:\\Windows");
    assert_eq!(string_value(&[]), "");
    assert_eq!(string_value(&[0, 0]), "");
    assert_eq!(string_value(&[0x61, 0, 0x62, 0]), "a\0b");
    assert_eq!(string_value(&[0xd83d, 0xde00, 0xd800, 0x63, 0]), "\u{1f600}\u{fffd}c");
}

#[test]
fn value_names_step_by_step() {
    let mut names = ValueNames::new();
    assert_eq!(names.index(), 0);
    assert_eq!(names.buffer_len(), 256);
    let buffer: Vec<u16> = "SystemRoot\0garbage".encode_utf16().collect();
    assert_eq!(names.advance(0, &buffer, 10), EnumerationStep::Read);
    assert_eq!(names.index(), 1);
    assert_eq!(names.advance(234, &buffer, 999), EnumerationStep::Read);
    assert_eq!(names.index(), 1);
    assert_eq!(names.buffer_len(), 512);
    assert_eq!(names.advance(0, &buffer, 6), EnumerationStep::Read);
    assert_eq!(names.advance(0, &buffer, 10), EnumerationStep::Read);
    assert_eq!(names.index(), 3);
    assert_eq!(names.advance(259, &buffer, 0), EnumerationStep::Done);
    assert_eq!(names.index(), 3);
    assert_eq!(names.into_names(), strings(&["SystemRoot", "System"]));
}

#[test]
fn value_names_failures() {
    let mut names = ValueNames::new();
    let buffer = [0x61u16, 0x62];
    assert_eq!(names.advance(5, &buffer, 1), EnumerationStep::Failed);
    assert_eq!(names.advance(0, &buffer, 3), EnumerationStep::Failed);
    assert_eq!(names.index(), 0);
    assert_eq!(names.buffer_len(), 256);
    assert_eq!(names.advance(0, &buffer, 2), EnumerationStep::Read);
    let mut grown = 256usize;
    while grown <= usize::MAX / 2 {
        assert_eq!(names.advance(234, &buffer, 0), EnumerationStep::Read);
        grown *= 2;
        assert_eq!(names.buffer_len(), grown);
    }
    assert_eq!(names.advance(234, &buffer, 0), EnumerationStep::Failed);
    assert_eq!(names.buffer_len(), grown);
    assert_eq!(names.into_names(), strings(&["ab"]));
}

#[test]
fn directory_from_a_buffer() {
    let mut buffer = vec![0u8; 256];
    buffer[..19].copy_from_slice(b"C:\\Windows\\system32");
    assert_eq!(directory_from_buffer(&buffer), Some("C:\\Windows\\system32".to_owned()));
    assert_eq!(directory_from_buffer(&[]), Some(String::new()));
    assert_eq!(directory_from_buffer(&[0, 0x41, 0]), Some("\0A".to_owned()));
    buffer[3] = 0xff;
    assert_eq!(directory_from_buffer(&buffer), None);
}

#[test]
fn walk_goes_on_past_a_module_that_fails() {
    let mut files = HashMap::new();
    files.insert(
        "/app/root.exe".to_owned(),
        image(&["unreadable.dll", "broken.dll", "nowhere.dll", "good.dll"]),
    );
    files.insert("/app/broken.dll".to_owned(), b"this is no image".to_vec());
    files.insert("/app/good.dll".to_owned(), image(&["leaf.dll"]));
    files.insert("/app/leaf.dll".to_owned(), image(&[]));
    let mut database = database(&[
        ("root.exe", "/app/root.exe"),
        ("unreadable.dll", "/app/unreadable.dll"),
        ("broken.dll", "/app/broken.dll"),
        ("good.dll", "/app/good.dll"),
        ("leaf.dll", "/app/leaf.dll"),
    ]);
    let reads = RefCell::new(Vec::new());
    let visited = walk_dlls(&mut database, "root.exe", |path: &String| {
        reads.borrow_mut().push(path.clone());
        files.get(path).cloned()
    });
    assert_eq!(
        visited,
        strings(&["root.exe", "good.dll", "leaf.dll", "nowhere.dll", "broken.dll", "unreadable.dll"])
    );
    assert_eq!(
        reads.into_inner(),
        strings(&[
            "/app/root.exe",
            "/app/good.dll",
            "/app/leaf.dll",
            "/app/broken.dll",
            "/app/unreadable.dll",
        ])
    );
    for failed in ["unreadable.dll", "broken.dll", "nowhere.dll"] {
        assert!(database.is_resolved(&failed.to_owned()), "{}", failed);
        assert!(database.get_dll_info(failed).is_none(), "{}", failed);
        assert_eq!(database.file_needed(failed), None, "{}", failed);
    }
    assert_eq!(names_of(&database.get_dll_info("good.dll").unwrap().file), strings(&["leaf.dll"]));
    assert_eq!(database.get_dll_info("leaf.dll").unwrap().file, File::new());
    assert_eq!(database.get_all_dlls(), visited);
}

#[test]
fn walk_hands_the_contents_to_the_catalog() {
    let mut database = database(&[("a.dll", "/app/a.dll"), ("b.dll", "/app/b.dll")]);
    let visited = walk_dlls(&mut database, "a.dll", |path: &String| {
        if path == "/app/a.dll" {
            Some(image(&["b.dll"]))
        } else {
            Some(image(&["c.dll", "d.dll"]))
        }
    });
    assert_eq!(visited, strings(&["a.dll", "b.dll", "d.dll", "c.dll"]));
    assert_eq!(names_of(&database.get_dll_info("a.dll").unwrap().file), strings(&["b.dll"]));
    assert_eq!(
        names_of(&database.get_dll_info("b.dll").unwrap().file),
        strings(&["c.dll", "d.dll"])
    );
    assert_eq!(database.get_dll_info("b.dll").unwrap().path, "/app/b.dll");
    assert!(database.get_dll_info("c.dll").is_none());
}

#[test]
fn umbrella_module_of_a_match() {
    assert_eq!(umbrella_module(Some(true)), Some((String::new(), DllType::Umbrella)));
    assert_eq!(umbrella_module(Some(false)), None);
    assert_eq!(umbrella_module(None), None);
}

#[test]
fn section_name_in_ascii_is_read_as_it_stands() {
    let mut data = vec![0u8; 80];
    data[..8].copy_from_slice(b".text\0\0\0");
    data[40..48].copy_from_slice(b".rsrc$01");
    let (_, table) = dll_deps::pe::section_table::SectionTable::parse(&data, 2).unwrap();
    assert_eq!(table.sections[0].name, ".text");
    assert_eq!(table.sections[1].name, ".rsrc$01");
}
