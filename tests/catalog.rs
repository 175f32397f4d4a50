use zed_dl::catalog::{resolve, Asset};

#[test]
fn every_listed_name_resolves_to_a_file() {
    for a in Asset::all() {
        let f = resolve(a.variant_name()).expect("listed name must resolve");
        assert!(!f.is_empty());
        assert_eq!(f, a.file_name());
    }
}

#[test]
fn vulkan_resolves_to_zed_exe() {
    assert_eq!(resolve("Vulkan").unwrap(), "zed.exe");
}

#[test]
fn lookup_ignores_ascii_case() {
    assert_eq!(resolve("vulkan").unwrap(), "zed.exe");
    assert_eq!(resolve("ZIPOPENGL").unwrap(), "zed-opengl.zip");
    assert_eq!(resolve("opengl").unwrap(), "zed-opengl.exe");
    assert_eq!(resolve("zipVulkan").unwrap(), "zed.zip");
}

#[test]
fn unknown_names_are_refused() {
    for name in ["", "Vulkan2", "vulka", "Metal", "zed.exe", "Vulkan "] {
        let e = resolve(name).unwrap_err();
        assert_eq!(e.name, name);
        assert_eq!(e.message(), format!("unknown asset {name}"));
    }
}

#[test]
fn from_name_gives_the_variant() {
    assert_eq!(Asset::from_name("OpenGl").unwrap(), Asset::OpenGl);
    assert_eq!(Asset::from_name("zipopengl").unwrap(), Asset::ZipOpenGl);
    assert_eq!(Asset::from_name("VULKAN").unwrap(), Asset::Vulkan);
    assert_eq!(Asset::from_name("ZipVulkan").unwrap(), Asset::ZipVulkan);
    assert!(Asset::from_name("Vulkän").is_err());
}

#[test]
fn listing_order_is_fixed() {
    let names: Vec<&str> = Asset::all().iter().map(|a| a.variant_name()).collect();
    assert_eq!(names, vec!["OpenGl", "ZipOpenGl", "Vulkan", "ZipVulkan"]);
}
