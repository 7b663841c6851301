use recipier::release::{check, plan, AssetEntry, Field, Malformed, ReleaseAsset, ReleaseReply, UpdateError};

fn entry(name: &str, id: u64) -> AssetEntry {
    AssetEntry { name: Some(name.to_owned()), id: Some(id) }
}

fn reply(status: u16, name: Field<String>, assets: Field<Vec<AssetEntry>>) -> ReleaseReply {
    ReleaseReply { status, name, assets }
}

fn listing() -> Vec<AssetEntry> {
    vec![
        entry("readme.txt", 1),
        entry("windows-x64-setup.zip", 2),
        AssetEntry { name: None, id: Some(3) },
        AssetEntry { name: Some("linux-x64-build.zip".to_owned()), id: None },
        entry("linux-x86-build.zip", 4),
        entry("linux-x64-build.zip", 5),
        entry("linux-x64-other.zip", 6),
    ]
}

#[test]
fn asset_names_give_platform_and_width() {
    let a = ReleaseAsset::parse("linux-x64-build.zip", 9).unwrap();
    assert_eq!(a.os, "linux");
    assert_eq!(a.width, 64);
    assert_eq!(a.id, 9);
    let b = ReleaseAsset::parse("windows-x86-", 1).unwrap();
    assert_eq!(b.os, "windows");
    assert_eq!(b.width, 32);
    let c = ReleaseAsset::parse("macos-64", 1).unwrap();
    assert_eq!((c.os.as_str(), c.width), ("macos", 64));
    let d = ReleaseAsset::parse("-xxx+007-", 1).unwrap();
    assert_eq!((d.os.as_str(), d.width), ("", 7));
    let e = ReleaseAsset::parse("bsd-255", 1).unwrap();
    assert_eq!(e.width, 255);
    let f = ReleaseAsset::parse("bsd-0", 1).unwrap();
    assert_eq!(f.width, 0);
}

#[test]
fn asset_names_that_say_nothing() {
    for name in [
        "",
        "linux",
        "linux-",
        "linux-x",
        "linux-x64.zip",
        "linux-x-64",
        "linux-X64-",
        "linux-256-",
        "linux-x1000-",
        "linux--64",
        "linux-64a-",
        "linux-+-",
        "linux-++5-",
        "linux--5-",
        "linux-x 64-",
        "linux-x६४-",
    ] {
        assert!(ReleaseAsset::parse(name, 1).is_none(), "{}", name);
    }
}

#[test]
fn width_is_read_as_the_standard_library_reads_it() {
    for text in ["0", "00", "7", "+7", "255", "256", "0255", "00000000000000000255", "999", "1e1", "", "+", "-", "-1", "٣", "12 ", " 12", "2_5"] {
        let name = format!("os-{}-rest", text);
        let expected = if text.contains('-') { None } else { text.parse::<u8>().ok() };
        let found = ReleaseAsset::parse(&name, 0).map(|asset| asset.width);
        assert_eq!(found, expected.map(|n| if n == 86 { 32 } else { n }), "{}", text);
    }
}

#[test]
fn entries_need_a_name_and_a_number() {
    assert!(ReleaseAsset::from_entry(&AssetEntry { name: None, id: Some(1) }).is_none());
    assert!(ReleaseAsset::from_entry(&AssetEntry { name: Some("linux-x64-a".to_owned()), id: None }).is_none());
    assert!(ReleaseAsset::from_entry(&AssetEntry { name: None, id: None }).is_none());
    let found = ReleaseAsset::from_entry(&entry("linux-x64-a", 8)).unwrap();
    assert_eq!((found.os.as_str(), found.width, found.id), ("linux", 64, 8));
    assert!(found.matches(&"linux".to_owned(), 64));
    assert!(!found.matches(&"linux".to_owned(), 32));
    assert!(!found.matches(&"Linux".to_owned(), 64));
}

#[test]
fn pick_takes_the_first_asset_for_the_platform() {
    let found = ReleaseAsset::pick(&listing(), &"linux".to_owned(), 64).unwrap();
    assert_eq!(found.id, 5);
    let found = ReleaseAsset::pick(&listing(), &"linux".to_owned(), 32).unwrap();
    assert_eq!(found.id, 4);
    let found = ReleaseAsset::pick(&listing(), &"windows".to_owned(), 64).unwrap();
    assert_eq!(found.id, 2);
    assert!(ReleaseAsset::pick(&listing(), &"macos".to_owned(), 64).is_none());
    assert!(ReleaseAsset::pick(&Vec::new(), &"linux".to_owned(), 64).is_none());
}

#[test]
fn plan_reports_the_first_fault() {
    let os = "linux".to_owned();
    let found = |assets| reply(200, Field::Found("1.2.3".to_owned()), assets);
    assert_eq!(plan(&reply(404, Field::Missing, Field::Missing), Some(true), &os, 64).unwrap_err(), UpdateError::LatestReleaseNotFound);
    assert_eq!(
        plan(&reply(200, Field::Missing, Field::Found(listing())), Some(true), &os, 64).unwrap_err(),
        UpdateError::InvalidJsonResponse(Malformed::NameMissing)
    );
    assert_eq!(
        plan(&reply(200, Field::Mistyped, Field::Found(listing())), Some(true), &os, 64).unwrap_err(),
        UpdateError::InvalidJsonResponse(Malformed::NameNotText)
    );
    assert_eq!(
        plan(&found(Field::Found(listing())), None, &os, 64).unwrap_err(),
        UpdateError::InvalidJsonResponse(Malformed::NameNotVersion)
    );
    assert_eq!(plan(&found(Field::Missing), Some(true), &os, 64).unwrap_err(), UpdateError::InvalidJsonResponse(Malformed::AssetsMissing));
    assert_eq!(plan(&found(Field::Mistyped), Some(true), &os, 64).unwrap_err(), UpdateError::InvalidJsonResponse(Malformed::AssetsNotList));
    assert_eq!(plan(&found(Field::Found(listing())), Some(true), &"macos".to_owned(), 64).unwrap_err(), UpdateError::NoMatchingAsset);
    assert!(plan(&found(Field::Missing), Some(false), &os, 64).unwrap().is_none());
    assert_eq!(plan(&found(Field::Found(listing())), Some(true), &os, 64).unwrap().unwrap().id, 5);
}

#[test]
fn check_compares_versions() {
    let os = "linux".to_owned();
    let named = |name: &str| reply(200, Field::Found(name.to_owned()), Field::Found(listing()));
    assert_eq!(check(&named("1.2.4"), "1.2.3", &os, 64).unwrap().unwrap().id, 5);
    assert_eq!(check(&named("1.10.0"), "1.9.9", &os, 64).unwrap().unwrap().id, 5);
    assert!(check(&named("1.2.3"), "1.2.3", &os, 64).unwrap().is_none());
    assert!(check(&named("1.2.3-rc.1"), "1.2.3", &os, 64).unwrap().is_none());
    assert!(check(&named("0.9.0"), "1.0.0", &os, 64).unwrap().is_none());
    assert_eq!(check(&named("v1.2.4"), "1.2.3", &os, 64).unwrap_err(), UpdateError::InvalidJsonResponse(Malformed::NameNotVersion));
    assert_eq!(check(&named("1.2"), "1.2.3", &os, 64).unwrap_err(), UpdateError::InvalidJsonResponse(Malformed::NameNotVersion));
    assert_eq!(check(&reply(500, Field::Found("9.9.9".to_owned()), Field::Found(listing())), "1.0.0", &os, 64).unwrap_err(), UpdateError::LatestReleaseNotFound);
}

#[test]
fn complaints_in_words() {
    assert_eq!(Malformed::NameMissing.message(), "'name' field missing from release object");
    assert_eq!(Malformed::NameNotText.message(), "'name' field of release object is not a string");
    assert_eq!(Malformed::NameNotVersion.message(), "Latest release's name is not a valid semver version!");
    assert_eq!(Malformed::AssetsMissing.message(), "'assets' field missing from release object");
    assert_eq!(Malformed::AssetsNotList.message(), "assets field of release object is not an array");
}
