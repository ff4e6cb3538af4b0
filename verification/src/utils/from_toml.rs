//! Reading a package manifest: the `[package]` table gives the package's
//! description, the `[dependencies]` table its dependencies.
//!
//! Only `[dependencies]` is read; build dependencies and tables for
//! single platforms are not.

use vstd::prelude::*;
use vstd::string::*;
use crate::error::{CrateSpecError, Result};
use crate::network::str_eq;
use crate::utils::context::{
    deps_view,
    DepInfo,
    DepInfoView,
    PackageContext,
    PackageInfoView,
    SrcTypePath,
};
use crate::utils::encode::dumped;
use crate::utils::strtab::{string_from_utf8, strings_of};

verus! {

#[verifier::external_type_specification]
#[verifier::external_body]
pub struct ExTomlValue(toml::Value);

#[verifier::external_type_specification]
#[verifier::external_body]
#[verifier::reject_recursive_types(K)]
#[verifier::reject_recursive_types(V)]
pub struct ExTomlMap<K, V>(toml::map::Map<K, V>);

/// A value of a manifest.
#[derive(Debug)]
pub enum TomlValue {
    String(String),
    Integer(i64),
    Float,
    Boolean(bool),
    Datetime,
    Array(Vec<TomlValue>),
    Table(TomlTable),
}

/// A table of a manifest: its keys with their values, in the order of the keys.
#[derive(Debug)]
pub struct TomlTable {
    pub entries: Vec<(String, TomlValue)>,
}

/// What a value of a manifest says.
pub enum TomlValueView {
    String(Seq<char>),
    Integer(i64),
    Float,
    Boolean(bool),
    Datetime,
    Array(Seq<TomlValueView>),
    Table(Seq<(Seq<char>, TomlValueView)>),
}

/// What a table of a manifest says: its keys with what their values say.
pub type TomlTableView = Seq<(Seq<char>, TomlValueView)>;

/// What the value `v` says.
pub open spec fn value_view(v: TomlValue) -> TomlValueView
    decreases v,
{
    match v {
        TomlValue::String(s) => TomlValueView::String(s@),
        TomlValue::Integer(i) => TomlValueView::Integer(i),
        TomlValue::Float => TomlValueView::Float,
        TomlValue::Boolean(b) => TomlValueView::Boolean(b),
        TomlValue::Datetime => TomlValueView::Datetime,
        TomlValue::Array(a) => TomlValueView::Array(
            Seq::new(
                a@.len(),
                |i: int|
                    if 0 <= i < a@.len() {
                        value_view(a@[i])
                    } else {
                        TomlValueView::Float
                    },
            ),
        ),
        TomlValue::Table(t) => TomlValueView::Table(
            Seq::new(
                t.entries@.len(),
                |i: int|
                    if 0 <= i < t.entries@.len() {
                        (t.entries@[i].0@, value_view(t.entries@[i].1))
                    } else {
                        (Seq::empty(), TomlValueView::Float)
                    },
            ),
        ),
    }
}

/// What the values `vs` say.
pub open spec fn values_view(vs: Seq<TomlValue>) -> Seq<TomlValueView> {
    Seq::new(vs.len(), |i: int| value_view(vs[i]))
}

/// What the entries `es` say.
pub open spec fn entries_view(es: Seq<(String, TomlValue)>) -> TomlTableView {
    Seq::new(es.len(), |i: int| (es[i].0@, value_view(es[i].1)))
}

impl View for TomlValue {
    type V = TomlValueView;

    open spec fn view(&self) -> TomlValueView {
        value_view(*self)
    }
}

impl View for TomlTable {
    type V = TomlTableView;

    open spec fn view(&self) -> TomlTableView {
        entries_view(self.entries@)
    }
}

/// An array says what its values say, a table what its entries say.
pub proof fn lemma_value_view(v: TomlValue)
    ensures
        v matches TomlValue::Array(a) ==> v@ == TomlValueView::Array(values_view(a@)),
        v matches TomlValue::Table(t) ==> v@ == TomlValueView::Table(t@),
{
    match v {
        TomlValue::Array(a) => {
            assert(v@->Array_0 =~= values_view(a@));
        },
        TomlValue::Table(t) => {
            assert(v@->Table_0 =~= t@);
        },
        _ => {},
    }
}

/// What the table says that a manifest text stands for, if the text is
/// well-formed TOML.
pub uninterp spec fn toml_document(text: Seq<char>) -> Option<TomlTableView>;

/// Moves a value of the `toml` crate into a `TomlValue`, variant by
/// variant; a float and a date lose what they hold.
#[verifier::external_body]
fn convert_toml_value(v: toml::Value) -> (r: TomlValue) {
    match v {
        toml::Value::String(s) => TomlValue::String(s),
        toml::Value::Integer(i) => TomlValue::Integer(i),
        toml::Value::Float(_) => TomlValue::Float,
        toml::Value::Boolean(b) => TomlValue::Boolean(b),
        toml::Value::Datetime(_) => TomlValue::Datetime,
        toml::Value::Array(a) => TomlValue::Array(a.into_iter().map(convert_toml_value).collect()),
        toml::Value::Table(t) => TomlValue::Table(convert_toml_table(t)),
    }
}

/// Moves a table of the `toml` crate into a `TomlTable`, entry by entry,
/// in the order in which the table hands its entries out.
#[verifier::external_body]
fn convert_toml_table(t: toml::map::Map<String, toml::Value>) -> (r: TomlTable) {
    TomlTable { entries: t.into_iter().map(|(k, v)| (k, convert_toml_value(v))).collect() }
}

/// `toml::Table::from_str`: parses a manifest. It succeeds exactly on
/// well-formed TOML and then yields the table that the text stands for.
#[verifier::external_body]
fn toml_table_from_str(st: &str) -> (r: core::result::Result<TomlTable, String>)
    ensures
        r is Ok <==> toml_document(st@) is Some,
        r matches Ok(t) ==> Some(t@) == toml_document(st@),
{
    <toml::Table as core::str::FromStr>::from_str(st)
        .map(convert_toml_table)
        .map_err(|e| e.to_string())
}

/// The first position from `from` on at which the key `key` stands in
/// `es`, or the length of `es` where it stands at none.
pub open spec fn key_index(es: TomlTableView, key: Seq<char>, from: int) -> int
    decreases es.len() - from,
{
    if from < 0 || from >= es.len() {
        es.len() as int
    } else if es[from].0 == key {
        from
    } else {
        key_index(es, key, from + 1)
    }
}

/// The value under the key `key` of the table `t`, if the table has that key.
pub open spec fn table_get(t: TomlTableView, key: Seq<char>) -> Option<TomlValueView> {
    let k = key_index(t, key, 0);
    if k < t.len() {
        Some(t[k].1)
    } else {
        None
    }
}

/// The string that the value is, if it is one.
pub open spec fn value_str(v: TomlValueView) -> Option<Seq<char>> {
    match v {
        TomlValueView::String(s) => Some(s),
        _ => None,
    }
}

impl TomlValue {
    /// Whether the value is a string.
    pub fn is_str(&self) -> (r: bool)
        ensures
            r == value_str(self@) is Some,
    {
        match self {
            TomlValue::String(_) => true,
            _ => false,
        }
    }

    /// The string that the value is, if it is one.
    pub fn as_str(&self) -> (r: Option<&str>)
        ensures
            r is Some <==> value_str(self@) is Some,
            r matches Some(s) ==> Some(s@) == value_str(self@),
    {
        match self {
            TomlValue::String(s) => Some(s.as_str()),
            _ => None,
        }
    }

    /// The array that the value is, if it is one.
    pub fn as_array(&self) -> (r: Option<&Vec<TomlValue>>)
        ensures
            r is Some <==> self@ is Array,
            r matches Some(a) ==> *self == TomlValue::Array(*a) && self@ == TomlValueView::Array(
                values_view(a@),
            ),
    {
        proof {
            lemma_value_view(*self);
        }
        match self {
            TomlValue::Array(a) => Some(a),
            _ => None,
        }
    }

    /// The table that the value is, if it is one.
    pub fn as_table(&self) -> (r: Option<&TomlTable>)
        ensures
            r is Some <==> self@ is Table,
            r matches Some(t) ==> *self == TomlValue::Table(*t) && self@ == TomlValueView::Table(t@),
    {
        proof {
            lemma_value_view(*self);
        }
        match self {
            TomlValue::Table(t) => Some(t),
            _ => None,
        }
    }
}

impl TomlTable {
    /// The value under the key `key`, if the table has that key.
    pub fn get(&self, key: &str) -> (r: Option<&TomlValue>)
        ensures
            r is Some <==> table_get(self@, key@) is Some,
            r matches Some(v) ==> Some(v@) == table_get(self@, key@),
    {
        let mut i: usize = 0;
        while i < self.entries.len()
            invariant
                i <= self.entries@.len(),
                key_index(self@, key@, 0) == key_index(self@, key@, i as int),
            decreases self.entries@.len() - i,
        {
            if str_eq(self.entries[i].0.as_str(), key) {
                return Some(&self.entries[i].1);
            }
            i = i + 1;
        }
        None
    }

    /// Whether the table has the key `key`.
    pub fn contains_key(&self, key: &str) -> (r: bool)
        ensures
            r == table_get(self@, key@) is Some,
    {
        self.get(key).is_some()
    }
}

/// A package manifest.
#[derive(Debug)]
pub struct CrateToml {
    pub t: TomlTable,
}

impl Default for CrateToml {
    fn default() -> (r: Self)
        ensures
            r.t.entries@.len() == 0,
    {
        CrateToml { t: TomlTable { entries: Vec::new() } }
    }
}

/// The string under the key `key` of `t`, or `None` where the key is
/// missing or its value is no string.
pub open spec fn str_field(t: TomlTableView, key: Seq<char>) -> Option<Seq<char>> {
    match table_get(t, key) {
        Some(v) => value_str(v),
        None => None,
    }
}

/// The string under the key `key` of `t`, or `default` where the key is
/// missing; `None` where its value is no string.
pub open spec fn opt_str_field(t: TomlTableView, key: Seq<char>, default: Seq<char>) -> Option<
    Seq<char>,
> {
    match table_get(t, key) {
        Some(v) => value_str(v),
        None => Some(default),
    }
}

/// Every value of `vs` is a string.
pub open spec fn all_strings(vs: Seq<TomlValueView>) -> bool {
    forall|i: int| 0 <= i < vs.len() ==> value_str(#[trigger] vs[i]) is Some
}

/// The strings that the values `vs` are.
pub open spec fn strings_in(vs: Seq<TomlValueView>) -> Seq<Seq<char>> {
    Seq::new(vs.len(), |i: int| value_str(vs[i]).unwrap())
}

/// The authors that the `[package]` table `t` names: none where the key
/// is missing, `None` where its value is no array of strings.
pub open spec fn authors_field(t: TomlTableView) -> Option<Seq<Seq<char>>> {
    match table_get(t, "authors"@) {
        None => Some(Seq::empty()),
        Some(TomlValueView::Array(vs)) => if all_strings(vs) {
            Some(strings_in(vs))
        } else {
            None
        },
        Some(_) => None,
    }
}

/// The description that the `[package]` table `t` gives, or `None` where
/// the name or the version is missing or a field is of the wrong type.
pub open spec fn manifest_package(t: TomlTableView) -> Option<PackageInfoView> {
    if str_field(t, "name"@) is None || str_field(t, "version"@) is None || opt_str_field(
        t,
        "license"@,
        Seq::empty(),
    ) is None || authors_field(t) is None {
        None
    } else {
        Some(
            PackageInfoView {
                name: str_field(t, "name"@).unwrap(),
                version: str_field(t, "version"@).unwrap(),
                license: opt_str_field(t, "license"@, Seq::empty()).unwrap(),
                authors: authors_field(t).unwrap(),
            },
        )
    }
}

/// Whether the key of a dependency's table is one that can be written to
/// the dependency table.
pub open spec fn allowed_key(key: Seq<char>) -> bool {
    key == "version"@ || key == "git"@ || key == "registry"@
}

/// Every key of the table `es` can be written to the dependency table.
pub open spec fn all_keys_allowed(es: TomlTableView) -> bool {
    forall|i: int| 0 <= i < es.len() ==> allowed_key((#[trigger] es[i]).0)
}

/// The dependency `name` that the manifest declares with the value `val`,
/// or `None` where the value is neither a string nor a table or a field of
/// the table is of the wrong type.
///
/// A string is the version requirement. In a table, `version` is the
/// version requirement, `git` and `registry` name the source, the registry
/// first; any other key marks the dependency as one that is not written.
pub open spec fn manifest_dep(name: Seq<char>, val: TomlValueView, platform: Seq<char>) -> Option<
    DepInfoView,
> {
    match val {
        TomlValueView::String(s) => Some(
            DepInfoView {
                name,
                ver_req: s,
                src_type: 0,
                src_path: Seq::empty(),
                src_platform: platform,
                dump: true,
            },
        ),
        TomlValueView::Table(t) => {
            let ver = opt_str_field(t, "version"@, "default"@);
            let git = opt_str_field(t, "git"@, Seq::empty());
            let reg = opt_str_field(t, "registry"@, Seq::empty());
            if ver is None || git is None || reg is None {
                None
            } else {
                Some(
                    DepInfoView {
                        name,
                        ver_req: ver.unwrap(),
                        src_type: if table_get(t, "registry"@) is Some {
                            3u8
                        } else if table_get(t, "git"@) is Some {
                            1u8
                        } else {
                            0u8
                        },
                        src_path: if table_get(t, "registry"@) is Some {
                            reg.unwrap()
                        } else if table_get(t, "git"@) is Some {
                            git.unwrap()
                        } else {
                            Seq::empty()
                        },
                        src_platform: platform,
                        dump: all_keys_allowed(t),
                    },
                )
            }
        },
        _ => None,
    }
}

/// Every entry of the `[dependencies]` table `es` declares a dependency.
pub open spec fn deps_declared(es: TomlTableView, platform: Seq<char>) -> bool {
    forall|i: int|
        0 <= i < es.len() ==> manifest_dep((#[trigger] es[i]).0, es[i].1, platform) is Some
}

/// The dependencies that the `[dependencies]` table `es` declares.
pub open spec fn manifest_deps(es: TomlTableView, platform: Seq<char>) -> Seq<DepInfoView> {
    Seq::new(es.len(), |i: int| manifest_dep(es[i].0, es[i].1, platform).unwrap())
}

/// The names of the dependencies among `deps` that are not written.
pub open spec fn excluded_names(deps: Seq<DepInfoView>) -> Seq<Seq<char>>
    decreases deps.len(),
{
    if deps.len() == 0 {
        Seq::empty()
    } else if deps.last().dump {
        excluded_names(deps.drop_last())
    } else {
        excluded_names(deps.drop_last()).push(deps.last().name)
    }
}

/// The string under the key `key` of `t`, or a parse error where the key
/// is missing or its value is no string.
fn required_str(t: &TomlTable, key: &str) -> (r: Result<String>)
    ensures
        r is Ok <==> str_field(t@, key@) is Some,
        r matches Ok(s) ==> Some(s@) == str_field(t@, key@),
        r matches Err(e) ==> e is ParseError,
{
    match t.get(key) {
        None => Err(CrateSpecError::ParseError(missing_field_message(key))),
        Some(v) => match v.as_str() {
            Some(s) => Ok(String::from_str(s)),
            None => Err(CrateSpecError::ParseError(bad_field_message(key))),
        },
    }
}

/// The string under the key `key` of `t`, or `default` where the key is
/// missing, or a parse error where its value is no string.
fn optional_str(t: &TomlTable, key: &str, default: &str) -> (r: Result<String>)
    ensures
        r is Ok <==> opt_str_field(t@, key@, default@) is Some,
        r matches Ok(s) ==> Some(s@) == opt_str_field(t@, key@, default@),
        r matches Err(e) ==> e is ParseError,
{
    match t.get(key) {
        None => Ok(String::from_str(default)),
        Some(v) => match v.as_str() {
            Some(s) => Ok(String::from_str(s)),
            None => Err(CrateSpecError::ParseError(bad_field_message(key))),
        },
    }
}

/// The message for a field that is missing.
fn missing_field_message(key: &str) -> (r: String)
    ensures
        r@ == "missing field '"@ + key@ + "'"@,
{
    let mut m = String::from_str("missing field '");
    m.append(key);
    m.append("'");
    m
}

/// The message for a field of the wrong type.
fn bad_field_message(key: &str) -> (r: String)
    ensures
        r@ == "field '"@ + key@ + "' has the wrong type"@,
{
    let mut m = String::from_str("field '");
    m.append(key);
    m.append("' has the wrong type");
    m
}

impl CrateToml {
    /// The manifest that the bytes `st_vec` hold.
    ///
    /// Fails with a parse error where the bytes are not UTF-8 or not
    /// well-formed TOML.
    pub fn from_vec(st_vec: Vec<u8>) -> (r: Result<Self>)
        ensures
            r is Ok <==> vstd::utf8::valid_utf8(st_vec@) && toml_document(
                vstd::utf8::decode_utf8(st_vec@),
            ) is Some,
            r matches Ok(m) ==> Some(m.t@) == toml_document(vstd::utf8::decode_utf8(st_vec@)),
            r matches Err(e) ==> e is ParseError,
    {
        match string_from_utf8(st_vec) {
            Some(st) => CrateToml::from_string(st.as_str()),
            None => Err(CrateSpecError::ParseError(String::from_str("the manifest is not UTF-8"))),
        }
    }

    /// The manifest that the text `st` holds.
    ///
    /// Fails with a parse error where the text is not well-formed TOML.
    pub fn from_string(st: &str) -> (r: Result<Self>)
        ensures
            r is Ok <==> toml_document(st@) is Some,
            r matches Ok(m) ==> Some(m.t@) == toml_document(st@),
            r matches Err(e) ==> e is ParseError,
    {
        match toml_table_from_str(st) {
            Ok(t) => Ok(CrateToml { t }),
            Err(m) => Err(CrateSpecError::ParseError(m)),
        }
    }

    /// Sets the description of `package_context` to the one that the
    /// `[package]` table `package` gives.
    ///
    /// Fails with a parse error, and changes nothing, where the name or the
    /// version is missing or a field is of the wrong type.
    fn write_package_info_to_package_context(
        &self,
        package_context: &mut PackageContext,
        package: &TomlTable,
    ) -> (r: Result<()>)
        ensures
            r is Ok <==> manifest_package(package@) is Some,
            r is Ok ==> Some(final(package_context).pack_info@) == manifest_package(package@),
            r is Err ==> final(package_context).pack_info == old(package_context).pack_info,
            r matches Err(e) ==> e is ParseError,
            final(package_context).dep_infos == old(package_context).dep_infos,
            final(package_context).crate_binary == old(package_context).crate_binary,
            final(package_context).sigs == old(package_context).sigs,
            final(package_context).root_cas == old(package_context).root_cas,
            final(package_context).network_client == old(package_context).network_client,
            final(package_context).network_keypair == old(package_context).network_keypair,
    {
        let name = match required_str(package, "name") {
            Ok(s) => s,
            Err(e) => {
                return Err(e);
            },
        };
        let version = match required_str(package, "version") {
            Ok(s) => s,
            Err(e) => {
                return Err(e);
            },
        };
        let license = match optional_str(package, "license", "") {
            Ok(s) => s,
            Err(e) => {
                return Err(e);
            },
        };
        proof {
            reveal_strlit("");
            assert(""@ =~= Seq::<char>::empty());
        }
        let mut authors: Vec<String> = Vec::new();
        match package.get("authors") {
            None => {
                proof {
                    assert(strings_of(authors@) =~= Seq::<Seq<char>>::empty());
                }
            },
            Some(v) => {
                let values = match v.as_array() {
                    Some(a) => a,
                    None => {
                        return Err(CrateSpecError::ParseError(bad_field_message("authors")));
                    },
                };
                let ghost vs = values_view(values@);
                let mut i: usize = 0;
                while i < values.len()
                    invariant
                        i <= values@.len(),
                        authors@.len() == i,
                        vs == values_view(values@),
                        table_get(package@, "authors"@) == Some(TomlValueView::Array(vs)),
                        forall|j: int| 0 <= j < i ==> value_str(#[trigger] vs[j]) is Some,
                        forall|j: int| 0 <= j < i ==> (#[trigger] authors@[j])@ == strings_in(vs)[j],
                        *package_context == *old(package_context),
                    decreases values@.len() - i,
                {
                    proof {
                        assert(vs[i as int] == values@[i as int]@);
                    }
                    match values[i].as_str() {
                        Some(s) => authors.push(String::from_str(s)),
                        None => {
                            proof {
                                assert(value_str(vs[i as int]) is None);
                            }
                            return Err(CrateSpecError::ParseError(bad_field_message("authors")));
                        },
                    }
                    i = i + 1;
                }
                proof {
                    assert(strings_of(authors@) =~= strings_in(vs));
                }
            },
        }
        package_context.set_package_info(name, version, license, authors);
        Ok(())
    }

    /// Whether every key of the table `t` can be written to the dependency
    /// table.
    fn keys_allowed(t: &TomlTable) -> (r: bool)
        ensures
            r == all_keys_allowed(t@),
    {
        let mut i: usize = 0;
        while i < t.entries.len()
            invariant
                i <= t.entries@.len(),
                forall|j: int| 0 <= j < i ==> allowed_key((#[trigger] t@[j]).0),
            decreases t.entries@.len() - i,
        {
            let key = t.entries[i].0.as_str();
            if !(str_eq(key, "version") || str_eq(key, "git") || str_eq(key, "registry")) {
                proof {
                    assert(!allowed_key(t@[i as int].0));
                }
                return false;
            }
            i = i + 1;
        }
        true
    }

    /// The dependency `name` that the manifest declares with the value `val`.
    fn read_dep(name: &str, val: &TomlValue, platform: &str) -> (r: Result<DepInfo>)
        ensures
            r is Ok <==> manifest_dep(name@, val@, platform@) is Some,
            r matches Ok(d) ==> Some(d@) == manifest_dep(name@, val@, platform@),
            r matches Err(e) ==> e is ParseError,
    {
        let mut dep_info = DepInfo::default();
        dep_info.src_platform = String::from_str(platform);
        dep_info.name = String::from_str(name);
        proof {
            lemma_value_view(*val);
        }
        match val {
            TomlValue::String(s) => {
                dep_info.ver_req = s.clone();
            },
            TomlValue::Table(attri_map) => {
                dep_info.dump = CrateToml::keys_allowed(attri_map);
                dep_info.ver_req = match optional_str(attri_map, "version", "default") {
                    Ok(s) => s,
                    Err(e) => {
                        return Err(e);
                    },
                };
                let git = match optional_str(attri_map, "git", "") {
                    Ok(s) => s,
                    Err(e) => {
                        return Err(e);
                    },
                };
                let registry = match optional_str(attri_map, "registry", "") {
                    Ok(s) => s,
                    Err(e) => {
                        return Err(e);
                    },
                };
                proof {
                    reveal_strlit("");
                    assert(""@ =~= Seq::<char>::empty());
                }
                if attri_map.contains_key("registry") {
                    dep_info.src = SrcTypePath::Registry(registry);
                } else if attri_map.contains_key("git") {
                    dep_info.src = SrcTypePath::Git(git);
                }
            },
            _ => {
                return Err(
                    CrateSpecError::ParseError(String::from_str("a dependency is neither a string nor a table")),
                );
            },
        }
        Ok(dep_info)
    }

    /// Adds the dependencies that the `[dependencies]` table `deps`
    /// declares to `package_context`, and returns the names of those that
    /// are not written because their table has a key that is not known.
    ///
    /// Fails with a parse error where a dependency is neither a string nor
    /// a table or a field of its table is of the wrong type; the
    /// dependencies before it have then been added.
    fn write_dep_info_to_package_context(
        &self,
        package_context: &mut PackageContext,
        deps: &TomlTable,
        platform: String,
    ) -> (r: Result<Vec<String>>)
        ensures
            r is Ok <==> deps_declared(deps@, platform@),
            r matches Ok(excluded) ==> {
                &&& deps_view(final(package_context).dep_infos@) == deps_view(
                    old(package_context).dep_infos@,
                ) + dumped(manifest_deps(deps@, platform@))
                &&& strings_of(excluded@) == excluded_names(manifest_deps(deps@, platform@))
            },
            r matches Err(e) ==> e is ParseError,
            final(package_context).pack_info == old(package_context).pack_info,
            final(package_context).crate_binary == old(package_context).crate_binary,
            final(package_context).sigs == old(package_context).sigs,
            final(package_context).root_cas == old(package_context).root_cas,
            final(package_context).network_client == old(package_context).network_client,
            final(package_context).network_keypair == old(package_context).network_keypair,
    {
        let ghost es = deps@;
        let ghost all = manifest_deps(es, platform@);
        let ghost before = deps_view(package_context.dep_infos@);
        let mut irresolve_depinfos: Vec<String> = Vec::new();
        let mut i: usize = 0;
        proof {
            assert(all.take(0) =~= Seq::<DepInfoView>::empty());
            assert(deps_view(package_context.dep_infos@) =~= before + dumped(all.take(0)));
            assert(strings_of(irresolve_depinfos@) =~= excluded_names(all.take(0)));
        }
        while i < deps.entries.len()
            invariant
                i <= deps.entries@.len(),
                es == deps@,
                all == manifest_deps(es, platform@),
                forall|j: int|
                    0 <= j < i ==> manifest_dep((#[trigger] es[j]).0, es[j].1, platform@) is Some,
                deps_view(package_context.dep_infos@) == before + dumped(all.take(i as int)),
                strings_of(irresolve_depinfos@) == excluded_names(all.take(i as int)),
                package_context.pack_info == old(package_context).pack_info,
                package_context.crate_binary == old(package_context).crate_binary,
                package_context.sigs == old(package_context).sigs,
                package_context.root_cas == old(package_context).root_cas,
                package_context.network_client == old(package_context).network_client,
                package_context.network_keypair == old(package_context).network_keypair,
            decreases deps.entries@.len() - i,
        {
            proof {
                assert(es[i as int] == (deps.entries@[i as int].0@, deps.entries@[i as int].1@));
            }
            let dep_info = match CrateToml::read_dep(
                deps.entries[i].0.as_str(),
                &deps.entries[i].1,
                platform.as_str(),
            ) {
                Ok(d) => d,
                Err(e) => {
                    proof {
                        assert(manifest_dep(es[i as int].0, es[i as int].1, platform@) is None);
                    }
                    return Err(e);
                },
            };
            let ghost d = dep_info@;
            let ghost prev_deps = package_context.dep_infos@;
            let ghost prev_names = irresolve_depinfos@;
            proof {
                assert(all[i as int] == d);
                assert(all.take(i + 1).drop_last() =~= all.take(i as int));
                assert(all.take(i + 1).last() == d);
            }
            if dep_info.dump {
                package_context.add_dep_info(
                    dep_info.name,
                    dep_info.ver_req,
                    dep_info.src,
                    dep_info.src_platform,
                );
                proof {
                    let now = deps_view(package_context.dep_infos@);
                    let want = before + dumped(all.take(i + 1));
                    assert(deps_view(prev_deps).len() == (before + dumped(all.take(i as int))).len());
                    assert(dumped(all.take(i + 1)) == dumped(all.take(i as int)).push(d));
                    assert(now.len() == want.len());
                    assert forall|j: int| 0 <= j < now.len() implies now[j] == want[j] by {
                        if j < prev_deps.len() {
                            assert(package_context.dep_infos@[j] == prev_deps[j]);
                            assert(deps_view(prev_deps)[j] == (before + dumped(all.take(i as int)))[j]);
                        } else {
                            assert(package_context.dep_infos@[j]@ == d);
                        }
                    }
                    assert(now =~= want);
                }
            } else {
                irresolve_depinfos.push(dep_info.name);
                proof {
                    let now = strings_of(irresolve_depinfos@);
                    let want = excluded_names(all.take(i + 1));
                    assert(now.len() == want.len());
                    assert forall|j: int| 0 <= j < now.len() implies now[j] == want[j] by {
                        if j < prev_names.len() {
                            assert(irresolve_depinfos@[j] == prev_names[j]);
                            assert(strings_of(prev_names)[j] == excluded_names(all.take(i as int))[j]);
                        }
                    }
                    assert(now =~= want);
                }
            }
            i = i + 1;
        }
        proof {
            assert(all.take(i as int) =~= all);
        }
        Ok(irresolve_depinfos)
    }

    /// The `[package]` table of the manifest, if it has one.
    pub open spec fn spec_package(&self) -> Option<TomlTableView> {
        match table_get(self.t@, "package"@) {
            Some(TomlValueView::Table(t)) => Some(t),
            _ => None,
        }
    }

    /// The `[dependencies]` table of the manifest, if it has one.
    pub open spec fn spec_dependencies(&self) -> Option<TomlTableView> {
        match table_get(self.t@, "dependencies"@) {
            Some(TomlValueView::Table(t)) => Some(t),
            _ => None,
        }
    }

    /// The manifest gives a description and declares its dependencies.
    pub open spec fn spec_ingestible(&self) -> bool {
        &&& self.spec_package() is Some
        &&& manifest_package(self.spec_package().unwrap()) is Some
        &&& self.spec_dependencies() is Some
        &&& deps_declared(self.spec_dependencies().unwrap(), Seq::empty())
    }

    /// Sets the description of `package_context` to the one that the
    /// manifest gives, adds the dependencies that it declares, for no
    /// platform in particular, and returns the names of the dependencies
    /// that are not written.
    ///
    /// Fails with a parse error where the `[package]` or the
    /// `[dependencies]` table is missing or ill-formed.
    pub fn write_info_to_package_context(&self, package_context: &mut PackageContext) -> (r: Result<
        Vec<String>,
    >)
        ensures
            r is Ok <==> self.spec_ingestible(),
            r matches Ok(excluded) ==> {
                let declared = manifest_deps(self.spec_dependencies().unwrap(), Seq::empty());
                &&& Some(final(package_context).pack_info@) == manifest_package(
                    self.spec_package().unwrap(),
                )
                &&& deps_view(final(package_context).dep_infos@) == deps_view(
                    old(package_context).dep_infos@,
                ) + dumped(declared)
                &&& strings_of(excluded@) == excluded_names(declared)
            },
            r matches Err(e) ==> e is ParseError,
            final(package_context).crate_binary == old(package_context).crate_binary,
            final(package_context).sigs == old(package_context).sigs,
            final(package_context).root_cas == old(package_context).root_cas,
            final(package_context).network_client == old(package_context).network_client,
            final(package_context).network_keypair == old(package_context).network_keypair,
    {
        let package = match self.t.get("package") {
            None => {
                return Err(CrateSpecError::ParseError(String::from_str("missing [package] table")));
            },
            Some(v) => match v.as_table() {
                Some(t) => t,
                None => {
                    return Err(CrateSpecError::ParseError(String::from_str("[package] is no table")));
                },
            },
        };
        match self.write_package_info_to_package_context(package_context, package) {
            Ok(()) => {},
            Err(e) => {
                return Err(e);
            },
        }
        let deps = match self.t.get("dependencies") {
            None => {
                return Err(
                    CrateSpecError::ParseError(String::from_str("missing [dependencies] table")),
                );
            },
            Some(v) => match v.as_table() {
                Some(t) => t,
                None => {
                    return Err(
                        CrateSpecError::ParseError(String::from_str("[dependencies] is no table")),
                    );
                },
            },
        };
        proof {
            reveal_strlit("");
            assert(""@ =~= Seq::<char>::empty());
        }
        self.write_dep_info_to_package_context(package_context, deps, String::from_str(""))
    }
}

} // verus!
