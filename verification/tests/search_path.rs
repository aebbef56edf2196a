use dll_deps::search_path::{DirectoryListing, SearchPath, SnapshotError};
use dll_deps::DllType;

fn listing(files: &[(&str, &str)]) -> DirectoryListing {
    let mut listing = DirectoryListing::new();
    for (name, location) in files {
        listing.insert(name, location);
    }
    listing
}

fn found(path: &str, dll_type: DllType) -> Option<(String, DllType)> {
    Some((path.to_owned(), dll_type))
}

/// A snapshot with one file in each place, and `shared.dll` in the current
/// directory and in the system directory.
fn snapshot(safe_search_mode: Option<u32>) -> SearchPath {
    SearchPath::new(
        safe_search_mode,
        Some(listing(&[("kernel32.dll", "C:\\Windows\\system32\\kernel32.dll")])),
        Some(listing(&[("cargo.exe", "C:\\cargo\\bin\\cargo.exe")])),
        Some(listing(&[
            ("win32u.dll", "C:\\Windows\\system32\\win32u.dll"),
            ("shared.dll", "C:\\Windows\\system32\\shared.dll"),
        ])),
        Some(listing(&[("explorer.exe", "C:\\Windows\\explorer.exe")])),
        vec![
            Some(listing(&[("tool.dll", "C:\\first\\tool.dll")])),
            None,
            Some(listing(&[
                ("tool.dll", "C:\\second\\tool.dll"),
                ("other.dll", "C:\\second\\other.dll"),
            ])),
        ],
        Some(listing(&[("shared.dll", "C:\\work\\shared.dll"), ("local.dll", "C:\\work\\local.dll")])),
    )
    .unwrap()
}

#[test]
fn search() {
    let search_path = snapshot(None);

    assert_eq!(
        search_path.search("win32u.dll"),
        Some((
            String::from(r"C:\Windows\system32\win32u.dll"),
            DllType::System
        ))
    );

    assert_eq!(
        search_path.search("WIN32U.DLL"),
        Some((
            String::from(r"C:\Windows\system32\win32u.dll"),
            DllType::System
        ))
    );

    assert_eq!(
        search_path.search("cargo.exe"),
        Some((String::from("C:\\cargo\\bin\\cargo.exe"), DllType::User))
    );

    assert_eq!(search_path.search("hopefully_not_existing.dll"), None);

    assert_eq!(
        search_path.search("api-ms-win-core-sysinfo-l1-2-3.dll"),
        Some((String::new(), DllType::Umbrella))
    );

    assert_eq!(
        search_path.search("kernel32.dll"),
        Some((String::from("C:\\Windows\\system32\\kernel32.dll"), DllType::Known))
    );
}

#[test]
fn search_is_case_insensitive() {
    let search_path = snapshot(Some(1));
    assert_eq!(search_path.search("KERNEL32.DLL"), search_path.search("kernel32.dll"));
    assert_eq!(search_path.search("Kernel32.Dll"), found("C:\\Windows\\system32\\kernel32.dll", DllType::Known));
    assert_eq!(search_path.search("LOCAL.dll"), found("C:\\work\\local.dll", DllType::User));
    assert_eq!(search_path.search("Explorer.EXE"), found("C:\\Windows\\explorer.exe", DllType::System));
    assert_eq!(search_path.search("NOTHING.DLL"), search_path.search("nothing.dll"));
    assert_eq!(
        search_path.search("API-MS-WIN-CORE-SYSINFO-L1-2-3.DLL"),
        found("", DllType::Umbrella)
    );
}

#[test]
fn listing_keys_are_lower_case() {
    let mut files = DirectoryListing::new();
    assert_eq!(files.len(), 0);
    files.insert("MixedCase.DLL", "D:\\MixedCase.DLL");
    assert_eq!(files.len(), 1);
    assert_eq!(files.get(&"mixedcase.dll".to_owned()), Some(&"D:\\MixedCase.DLL".to_owned()));
    assert_eq!(files.get(&"MixedCase.DLL".to_owned()), None);
    assert_eq!(files.get(&"other.dll".to_owned()), None);
}

#[test]
fn listing_later_entry_counts() {
    let mut files = DirectoryListing::new();
    files.insert("a.dll", "first");
    files.insert("b.dll", "b");
    files.insert("A.DLL", "second");
    assert_eq!(files.len(), 3);
    assert_eq!(files.get(&"a.dll".to_owned()), Some(&"second".to_owned()));
    assert_eq!(files.get(&"b.dll".to_owned()), Some(&"b".to_owned()));
}

#[test]
fn search_key_takes_the_key_as_it_is() {
    let search_path = snapshot(None);
    assert_eq!(
        search_path.search_key(&"win32u.dll".to_owned()),
        found("C:\\Windows\\system32\\win32u.dll", DllType::System)
    );
    assert_eq!(search_path.search_key(&"WIN32U.DLL".to_owned()), None);
}

#[test]
fn safe_search_decides_between_current_and_system() {
    let safe = snapshot(Some(1));
    assert_eq!(safe.safe_search_enabled(), true);
    assert_eq!(safe.search("shared.dll"), found("C:\\Windows\\system32\\shared.dll", DllType::System));
    let unsafe_search = snapshot(Some(0));
    assert_eq!(unsafe_search.safe_search_enabled(), false);
    assert_eq!(unsafe_search.search("shared.dll"), found("C:\\work\\shared.dll", DllType::User));
    assert_eq!(
        unsafe_search.search("win32u.dll"),
        found("C:\\Windows\\system32\\win32u.dll", DllType::System)
    );
    assert_eq!(unsafe_search.search("local.dll"), found("C:\\work\\local.dll", DllType::User));
    assert_eq!(safe.search("local.dll"), found("C:\\work\\local.dll", DllType::User));
}

#[test]
fn safe_search_is_on_unless_the_setting_is_zero() {
    assert_eq!(snapshot(None).safe_search_enabled(), true);
    assert_eq!(snapshot(Some(0)).safe_search_enabled(), false);
    assert_eq!(snapshot(Some(1)).safe_search_enabled(), true);
    assert_eq!(snapshot(Some(u32::MAX)).safe_search_enabled(), true);
}

#[test]
fn search_order_of_the_places() {
    for mode in [Some(0), Some(1)] {
        let everywhere = [("x.dll", "known")];
        let search_path = SearchPath::new(
            mode,
            Some(listing(&everywhere)),
            Some(listing(&[("x.dll", "base"), ("y.dll", "base")])),
            Some(listing(&[("x.dll", "system"), ("y.dll", "system"), ("z.dll", "system")])),
            Some(listing(&[("x.dll", "windows"), ("z.dll", "windows"), ("w.dll", "windows")])),
            vec![Some(listing(&[("x.dll", "path"), ("w.dll", "path"), ("v.dll", "path")]))],
            Some(listing(&[("x.dll", "current"), ("v.dll", "current")])),
        )
        .unwrap();
        assert_eq!(search_path.search("x.dll"), found("known", DllType::Known));
        assert_eq!(search_path.search("y.dll"), found("base", DllType::User));
        assert_eq!(search_path.search("z.dll"), found("system", DllType::System));
        assert_eq!(search_path.search("w.dll"), found("windows", DllType::System));
        assert_eq!(search_path.search("v.dll"), found("current", DllType::User));
    }
}

#[test]
fn search_path_directories_in_their_order() {
    let search_path = snapshot(None);
    assert_eq!(search_path.search("tool.dll"), found("C:\\first\\tool.dll", DllType::Path));
    assert_eq!(search_path.search("other.dll"), found("C:\\second\\other.dll", DllType::Path));
}

#[test]
fn umbrella_names() {
    let search_path = snapshot(None);
    for name in [
        "api-ms-win-core-sysinfo-l1-2-3.dll",
        "ext-ms-win-gdi-dc-l1-2-0.dll",
        "api--l0-0-0.dll",
        "api-ms-win-crt-runtime-l12-345-6789.dll",
        "prefix-api-x-l1-1-1.dll.suffix",
        "api-x-l1-1-1xdll",
    ] {
        assert_eq!(search_path.search(name), found("", DllType::Umbrella), "{}", name);
    }
    for name in [
        "api-ms-win-core-sysinfo-l1-2.dll",
        "app-ms-win-core-sysinfo-l1-2-3.dll",
        "api-ms-win-core-sysinfo-1-2-3.dll",
        "api-ms-win-core-sysinfo-l1-2-3.exe",
        "api-l1-2-3.dll",
        "",
    ] {
        assert_eq!(search_path.search(name), None, "{}", name);
    }
}

#[test]
fn umbrella_name_in_a_listing_is_found_there() {
    let search_path = SearchPath::new(
        None,
        None,
        Some(listing(&[("api-ms-win-core-sysinfo-l1-2-3.dll", "C:\\app\\shim.dll")])),
        Some(DirectoryListing::new()),
        Some(DirectoryListing::new()),
        vec![],
        Some(DirectoryListing::new()),
    )
    .unwrap();
    assert_eq!(
        search_path.search("api-ms-win-core-sysinfo-l1-2-3.dll"),
        found("C:\\app\\shim.dll", DllType::User)
    );
}

#[test]
fn snapshot_without_trusted_modules() {
    let search_path = SearchPath::new(
        Some(1),
        None,
        Some(DirectoryListing::new()),
        Some(listing(&[("kernel32.dll", "C:\\Windows\\system32\\kernel32.dll")])),
        Some(DirectoryListing::new()),
        vec![None, None],
        Some(DirectoryListing::new()),
    )
    .unwrap();
    assert_eq!(
        search_path.search("kernel32.dll"),
        found("C:\\Windows\\system32\\kernel32.dll", DllType::System)
    );
}

#[test]
fn snapshot_needs_its_four_directories() {
    let some = || Some(DirectoryListing::new());
    assert_eq!(
        SearchPath::new(None, None, None, None, None, vec![], None).err(),
        Some(SnapshotError::BaseDirectory)
    );
    assert_eq!(
        SearchPath::new(None, some(), some(), None, None, vec![], None).err(),
        Some(SnapshotError::SystemDirectory)
    );
    assert_eq!(
        SearchPath::new(None, some(), some(), some(), None, vec![some()], None).err(),
        Some(SnapshotError::WindowsDirectory)
    );
    assert_eq!(
        SearchPath::new(None, some(), some(), some(), some(), vec![some()], None).err(),
        Some(SnapshotError::CurrentDirectory)
    );
    assert_eq!(
        SearchPath::new(None, some(), None, some(), some(), vec![], some()).err(),
        Some(SnapshotError::BaseDirectory)
    );
    assert!(SearchPath::new(None, None, some(), some(), some(), vec![None], some()).is_ok());
}
