use crate_spec::error::CrateSpecError;
use crate_spec::utils::context::{PackageContext, SrcTypePath};
use crate_spec::utils::from_toml::{CrateToml, TomlValue};

const MANIFEST: &str = "
[package]
name = \"demo\"
version = \"0.3.1\"
license = \"Apache-2.0\"
authors = [\"ann\", \"bob\"]

[dependencies]
serde = \"1.0\"
baz = { version = \"1\", path = \"../baz\" }
gitdep = { git = \"https://example.com/g.git\" }
alt = { version = \"2\", registry = \"custom\" }
";

#[test]
fn test_toml() {
    let toml = CrateToml::from_string(MANIFEST).unwrap();
    let mut pack_context = PackageContext::new();
    println!("{:?}", toml.write_info_to_package_context(&mut pack_context));
    println!("{:#?}", pack_context.pack_info);
}

#[test]
fn manifest_gives_the_description_and_the_dependencies() {
    let toml = CrateToml::from_vec(MANIFEST.as_bytes().to_vec()).unwrap();
    let mut ctx = PackageContext::new();
    let excluded = toml.write_info_to_package_context(&mut ctx).unwrap();
    assert_eq!(excluded, vec!["baz".to_string()]);
    assert_eq!(ctx.pack_info.name, "demo");
    assert_eq!(ctx.pack_info.version, "0.3.1");
    assert_eq!(ctx.pack_info.license, "Apache-2.0");
    assert_eq!(ctx.pack_info.authors, vec!["ann".to_string(), "bob".to_string()]);
    // the dependencies come in the order of their names
    let names: Vec<&str> = ctx.dep_infos.iter().map(|d| d.name.as_str()).collect();
    assert_eq!(names, vec!["alt", "gitdep", "serde"]);
    assert_eq!(ctx.dep_infos[0].ver_req, "2");
    assert_eq!(ctx.dep_infos[0].src, SrcTypePath::Registry("custom".to_string()));
    assert_eq!(ctx.dep_infos[1].ver_req, "default");
    assert_eq!(ctx.dep_infos[1].src, SrcTypePath::Git("https://example.com/g.git".to_string()));
    assert_eq!(ctx.dep_infos[2].ver_req, "1.0");
    assert_eq!(ctx.dep_infos[2].src, SrcTypePath::CratesIo);
    assert!(ctx.dep_infos.iter().all(|d| d.dump && d.src_platform.is_empty()));
}

#[test]
fn dependency_with_an_unknown_key_is_excluded_from_the_container() {
    let text = "[package]\nname = \"foo\"\nversion = \"0.1.0\"\n[dependencies]\nbaz = { version = \"1\", path = \"../baz\" }\n";
    let toml = CrateToml::from_string(text).unwrap();
    let mut ctx = PackageContext::new();
    let excluded = toml.write_info_to_package_context(&mut ctx).unwrap();
    assert_eq!(excluded, vec!["baz".to_string()]);
    assert_eq!(ctx.dep_num(), 0);
    assert_eq!(ctx.pack_info.license, "");
    assert!(ctx.pack_info.authors.is_empty());
    ctx.add_crate_bin(vec![1, 2, 3]);
    let (pkg, table, _bin) = ctx.encode_to_crate_package().unwrap();
    assert_eq!(pkg.dep_table_section().unwrap().entries.len(), 0);
    assert!(!table.contains_str(&"baz".to_string()));
}

#[test]
fn registry_wins_over_git() {
    let text = "[package]\nname = \"foo\"\nversion = \"1\"\n[dependencies]\nx = { git = \"g\", registry = \"r\" }\n";
    let toml = CrateToml::from_string(text).unwrap();
    let mut ctx = PackageContext::new();
    toml.write_info_to_package_context(&mut ctx).unwrap();
    assert_eq!(ctx.dep_infos[0].src, SrcTypePath::Registry("r".to_string()));
}

fn ingest(text: &str) -> Result<Vec<String>, CrateSpecError> {
    let toml = CrateToml::from_string(text)?;
    let mut ctx = PackageContext::new();
    toml.write_info_to_package_context(&mut ctx)
}

#[test]
fn ill_formed_manifests_are_parse_errors() {
    let cases = [
        "name = ",
        "[dependencies]\n",
        "[package]\nname = \"foo\"\nversion = \"1\"\n",
        "[package]\nversion = \"1\"\n[dependencies]\n",
        "[package]\nname = \"foo\"\n[dependencies]\n",
        "[package]\nname = 3\nversion = \"1\"\n[dependencies]\n",
        "[package]\nname = \"foo\"\nversion = \"1\"\nlicense = 1\n[dependencies]\n",
        "[package]\nname = \"foo\"\nversion = \"1\"\nauthors = \"me\"\n[dependencies]\n",
        "[package]\nname = \"foo\"\nversion = \"1\"\nauthors = [1]\n[dependencies]\n",
        "[package]\nname = \"foo\"\nversion = \"1\"\n[dependencies]\nx = 1\n",
        "[package]\nname = \"foo\"\nversion = \"1\"\n[dependencies]\nx = { version = 1 }\n",
        "[package]\nname = \"foo\"\nversion = \"1\"\n[dependencies]\nx = { git = true }\n",
        "package = 1\n[dependencies]\n",
    ];
    for text in cases {
        match ingest(text) {
            Err(CrateSpecError::ParseError(_)) => {}
            other => panic!("{:?}: expected a parse error, got {:?}", text, other),
        }
    }
    assert!(matches!(
        CrateToml::from_vec(vec![0xff, 0xfe]),
        Err(CrateSpecError::ParseError(_))
    ));
}

#[test]
fn values_of_every_kind_are_kept() {
    let toml = CrateToml::from_string(
        "s = \"x\"\ni = 7\nf = 1.5\nb = true\nd = 1979-05-27\na = [1, \"y\"]\n[t]\nk = \"v\"\n",
    )
    .unwrap();
    assert!(matches!(toml.t.get("s"), Some(TomlValue::String(s)) if s == "x"));
    assert!(matches!(toml.t.get("i"), Some(TomlValue::Integer(7))));
    assert!(matches!(toml.t.get("f"), Some(TomlValue::Float)));
    assert!(matches!(toml.t.get("b"), Some(TomlValue::Boolean(true))));
    assert!(matches!(toml.t.get("d"), Some(TomlValue::Datetime)));
    let a = toml.t.get("a").unwrap().as_array().unwrap();
    assert_eq!(a.len(), 2);
    assert_eq!(a[1].as_str(), Some("y"));
    assert!(!a[0].is_str());
    let t = toml.t.get("t").unwrap().as_table().unwrap();
    assert_eq!(t.get("k").unwrap().as_str(), Some("v"));
    assert!(t.contains_key("k"));
    assert!(!t.contains_key("z"));
    assert!(toml.t.get("missing").is_none());
    assert!(CrateToml::default().t.entries.is_empty());
}
