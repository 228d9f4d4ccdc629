use iconify_rs::text::{decimal_string, replace_all};
use iconify_rs::{
    custom_output, generate_cached_icons, get_icon_xml, should_browse, Author, Cli, Collection,
    Config, Icon, IconCollection, IconError, License,
};

fn set(prefix: &str, names: &[&str], width: Option<usize>) -> IconCollection {
    IconCollection {
        prefix: prefix.to_string(),
        width,
        height: None,
        suffixes: None,
        last_modified: 0,
        info: Collection {
            name: prefix.to_uppercase(),
            total: names.len(),
            author: Author { name: "someone".to_string(), url: None },
            license: License { title: "MIT".to_string(), spdx: "MIT".to_string(), url: None },
            samples: Vec::new(),
            height: None,
            category: None,
            palette: false,
        },
        icons: names
            .iter()
            .map(|n| Icon { name: n.to_string(), body: format!("<path d=\"{}\"/>", n) })
            .collect(),
    }
}

fn args(browse: bool, no_browse: bool) -> Cli {
    Cli {
        prefix: None,
        generate_icons_cache: false,
        fetch_collections: false,
        preview: false,
        browse,
        no_browse,
        verbose: false,
        output_svg: false,
        reset_config: false,
        query: None,
    }
}

#[test]
fn icon_markup_is_found_by_identifier() {
    let c = set("mdi", &["home", "cat"], Some(24));
    let (w, h, body) = get_icon_xml("mdi:cat", &c).unwrap();
    assert_eq!((w, h), (24, 16));
    assert_eq!(body, "<path d=\"cat\"/>");
}

#[test]
fn icon_without_prefix_is_an_error() {
    let c = set("mdi", &["home"], None);
    assert_eq!(get_icon_xml("home", &c), Err(IconError::MissingPrefix));
}

#[test]
fn unknown_icon_is_an_error() {
    let c = set("mdi", &["home"], None);
    assert_eq!(get_icon_xml("mdi:dog", &c), Err(IconError::NotFound));
}

#[test]
fn cached_ids_list_every_icon_set_after_set() {
    let ids = generate_cached_icons(&vec![set("mdi", &["home", "cat"], None), set("fa", &["dog"], None)]);
    assert_eq!(ids, vec!["mdi:home", "mdi:cat", "fa:dog"]);
    assert!(generate_cached_icons(&Vec::new()).is_empty());
}

#[test]
fn browse_flag_and_default_combine() {
    let with_default = Config { default_browse: Some(true), custom_output: None };
    let without = Config { default_browse: None, custom_output: None };
    assert!(should_browse(&args(false, false), &with_default));
    assert!(!should_browse(&args(true, true), &with_default));
    assert!(should_browse(&args(true, true), &without));
    assert!(!should_browse(&args(false, false), &without));
}

#[test]
fn custom_output_replaces_every_placeholder() {
    let c = Config { default_browse: None, custom_output: Some("{icon} and {icon}".to_string()) };
    assert_eq!(custom_output(&c, "mdi:cat"), Some("mdi:cat and mdi:cat".to_string()));
    let none = Config { default_browse: None, custom_output: None };
    assert_eq!(custom_output(&none, "mdi:cat"), None);
}

#[test]
fn replace_all_scans_left_to_right() {
    assert_eq!(replace_all("aaa", "aa", "b"), "ba");
    assert_eq!(replace_all("stroke=\"#000\"", "#000", "#fff"), "stroke=\"#fff\"");
    assert_eq!(replace_all("none", "x", "y"), "none");
}

#[test]
fn svg_document_wraps_body_and_whitens_strokes() {
    let doc = iconify_rs::svg_document(24, 16, "<path stroke=\"#000\" d=\"M0\"/>");
    assert_eq!(
        doc,
        "<svg xmlns=\"http://www.w3.org/2000/svg\" width=\"96\" height=\"96\" color=\"white\" viewBox=\"0 0 24 16\"><path stroke=\"#fff\" d=\"M0\"/></svg>"
    );
}

#[test]
fn decimal_string_writes_numbers() {
    assert_eq!(decimal_string(0), "0");
    assert_eq!(decimal_string(7), "7");
    assert_eq!(decimal_string(1024), "1024");
    assert_eq!(decimal_string(usize::MAX), usize::MAX.to_string());
}
