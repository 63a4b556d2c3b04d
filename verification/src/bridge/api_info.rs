//! The part of `nvim_get_api_info` the shell needs: channel id and version.

use vstd::prelude::*;

use crate::bridge::events::{key_is, sp_as_str, sp_map_field};
use crate::bridge::value::{entries_view, values_view, Integer, StrView, Utf8Str, Value, ValueView};
use crate::text::str_eq;

verus! {

#[derive(Clone, Copy, Debug, PartialEq, Eq, Structural)]
pub struct ApiVersion {
    pub major: u64,
    pub minor: u64,
    pub patch: u64,
    pub prerelease: bool,
    pub api_level: u64,
}

impl ApiVersion {
    /// Is this version `major.minor.patch` or later?
    pub fn at_least(&self, major: u64, minor: u64, patch: u64) -> (b: bool)
        ensures
            b == (self.major > major || (self.major == major && (self.minor > minor || (self.minor == minor && self.patch >= patch)))),
    {
        if self.major != major {
            self.major > major
        } else if self.minor != minor {
            self.minor > minor
        } else {
            self.patch >= patch
        }
    }
}

#[derive(Clone, Debug)]
pub struct ApiInfo {
    pub channel: u64,
    pub version: ApiVersion,
    /// The `ext_*` options this Neovim supports (`ui_options`).
    pub ui_options: Vec<String>,
}

/// Why `nvim_get_api_info`'s reply could not be read.
#[derive(Clone, Copy, Debug, PartialEq, Eq, Structural)]
pub enum ApiInfoError {
    NoChannel,
    NoMetadata,
    NoVersion,
}

/// The value under `key` in a map: the first entry whose key is that string.
#[verifier::opaque]
pub open spec fn lookup(m: Seq<(ValueView, ValueView)>, key: Seq<char>) -> Option<ValueView> {
    sp_map_field(m, key)
}

/// `Value::as_u64`: a non-negative integer.
pub open spec fn as_u64(v: ValueView) -> Option<u64> {
    match v {
        ValueView::Integer(n) => n.spec_as_u64(),
        _ => None,
    }
}

pub open spec fn as_map(v: ValueView) -> Option<Seq<(ValueView, ValueView)>> {
    match v {
        ValueView::Dict(m) => Some(m),
        _ => None,
    }
}

/// A number of the version map; 0 when missing or not a non-negative integer.
pub open spec fn version_number(m: Seq<(ValueView, ValueView)>, key: Seq<char>) -> u64 {
    match lookup(m, key) {
        Some(v) => match as_u64(v) {
            Some(n) => n,
            None => 0,
        },
        None => 0,
    }
}

/// The strings of a list, in order; other items are skipped.
pub open spec fn strings_in(vs: Seq<ValueView>) -> Seq<Seq<char>>
    decreases vs.len(),
{
    if vs.len() == 0 {
        Seq::empty()
    } else {
        let before = strings_in(vs.drop_last());
        match sp_as_str(vs.last()) {
            Some(s) => before.push(s),
            None => before,
        }
    }
}

pub struct ApiInfoView {
    pub channel: u64,
    pub version: ApiVersion,
    pub ui_options: Seq<Seq<char>>,
}

/// The channel id (first item), and from the metadata map (second item) the version numbers
/// (0 when missing), the pre-release flag (false when missing) and the `ui_options` strings.
pub open spec fn spec_api_info(info: Seq<ValueView>) -> Result<ApiInfoView, ApiInfoError> {
    match if info.len() > 0 { as_u64(info[0]) } else { None } {
        None => Err(ApiInfoError::NoChannel),
        Some(channel) => match if info.len() > 1 { as_map(info[1]) } else { None } {
            None => Err(ApiInfoError::NoMetadata),
            Some(meta) => match match lookup(meta, "version"@) {
                Some(v) => as_map(v),
                None => None,
            } {
                None => Err(ApiInfoError::NoVersion),
                Some(vm) => Ok(ApiInfoView {
                    channel,
                    version: ApiVersion {
                        major: version_number(vm, "major"@),
                        minor: version_number(vm, "minor"@),
                        patch: version_number(vm, "patch"@),
                        prerelease: match lookup(vm, "prerelease"@) {
                            Some(ValueView::Boolean(b)) => b,
                            _ => false,
                        },
                        api_level: version_number(vm, "api_level"@),
                    },
                    ui_options: match lookup(meta, "ui_options"@) {
                        Some(ValueView::Array(items)) => strings_in(items),
                        _ => Seq::empty(),
                    },
                }),
            },
        },
    }
}

/// The value under `key` in the map, if any.
fn field<'a>(map: &'a Vec<(Value, Value)>, key: &str) -> (r: Option<&'a Value>)
    ensures
        match r {
            Some(v) => lookup(entries_view(map@), key@) == Some(v@),
            None => lookup(entries_view(map@), key@) is None,
        },
{
    let ghost mv = entries_view(map@);
    let mut i: usize = 0;
    while i < map.len()
        invariant
            i <= map@.len(),
            mv == entries_view(map@),
            forall|j: int| 0 <= j < i ==> !key_is(mv[j], key@),
        decreases map@.len() - i,
    {
        proof {
            assert(mv[i as int] == (map@[i as int].0@, map@[i as int].1@));
        }
        let is_key = match &map[i].0 {
            Value::String(Utf8Str::Valid(t)) => str_eq(t.as_str(), key),
            _ => false,
        };
        if is_key {
            proof {
                reveal(lookup);
                crate::bridge::events::lemma_map_field_at(mv, key@, i as int);
            }
            return Some(&map[i].1);
        }
        i += 1;
    }
    proof {
        reveal(lookup);
    }
    None
}

fn number(map: &Vec<(Value, Value)>, key: &str) -> (n: u64)
    ensures
        n == version_number(entries_view(map@), key@),
{
    match field(map, key) {
        Some(Value::Integer(n)) => match n.as_u64() {
            Some(x) => x,
            None => 0,
        },
        _ => 0,
    }
}

fn read_version(version_map: &Vec<(Value, Value)>) -> (v: ApiVersion)
    ensures
        v == (ApiVersion {
            major: version_number(entries_view(version_map@), "major"@),
            minor: version_number(entries_view(version_map@), "minor"@),
            patch: version_number(entries_view(version_map@), "patch"@),
            prerelease: match lookup(entries_view(version_map@), "prerelease"@) {
                Some(ValueView::Boolean(b)) => b,
                _ => false,
            },
            api_level: version_number(entries_view(version_map@), "api_level"@),
        }),
{
    ApiVersion {
        major: number(version_map, "major"),
        minor: number(version_map, "minor"),
        patch: number(version_map, "patch"),
        prerelease: match field(version_map, "prerelease") {
            Some(Value::Boolean(b)) => *b,
            _ => false,
        },
        api_level: number(version_map, "api_level"),
    }
}

fn read_ui_options(meta: &Vec<(Value, Value)>) -> (ui_options: Vec<String>)
    ensures
        Seq::new(ui_options@.len(), |k: int| ui_options@[k]@) == match lookup(entries_view(meta@), "ui_options"@) {
            Some(ValueView::Array(items)) => strings_in(items),
            _ => Seq::empty(),
        },
{
    let mut ui_options: Vec<String> = Vec::new();
    match field(meta, "ui_options") {
        Some(Value::Array(items)) => {
            let ghost vs = values_view(items@);
            let mut i: usize = 0;
            proof {
                assert(vs.take(0) =~= Seq::<ValueView>::empty());
                assert(Seq::new(ui_options@.len(), |k: int| ui_options@[k]@) =~= Seq::<Seq<char>>::empty());
            }
            while i < items.len()
                invariant
                    i <= items@.len(),
                    vs == values_view(items@),
                    Seq::new(ui_options@.len(), |k: int| ui_options@[k]@) == strings_in(vs.take(i as int)),
                decreases items@.len() - i,
            {
                proof {
                    assert(vs.take(i + 1).drop_last() =~= vs.take(i as int));
                    assert(vs[i as int] == items@[i as int]@);
                }
                let ghost before = ui_options@;
                match &items[i] {
                    Value::String(Utf8Str::Valid(s)) => {
                        ui_options.push(s.clone());
                        proof {
                            assert(Seq::new(ui_options@.len(), |k: int| ui_options@[k]@) =~= Seq::new(before.len(), |k: int| before[k]@).push(
                                s@,
                            ));
                        }
                    },
                    _ => {},
                }
                i += 1;
            }
            proof {
                assert(vs.take(vs.len() as int) =~= vs);
            }
        },
        _ => {
            proof {
                assert(Seq::new(ui_options@.len(), |k: int| ui_options@[k]@) =~= Seq::<Seq<char>>::empty());
            }
        },
    }
    ui_options
}

/// Read `nvim_get_api_info`'s reply (see `spec_api_info`).
pub fn parse_api_info(info: &Vec<Value>) -> (r: Result<ApiInfo, ApiInfoError>)
    ensures
        match r {
            Ok(a) => spec_api_info(values_view(info@)) == Ok::<ApiInfoView, ApiInfoError>(
                ApiInfoView { channel: a.channel, version: a.version, ui_options: Seq::new(a.ui_options@.len(), |i: int| a.ui_options@[i]@) },
            ),
            Err(e) => spec_api_info(values_view(info@)) == Err::<ApiInfoView, ApiInfoError>(e),
        },
{
    proof {
        reveal_strlit("version");
    }
    let ghost iv = values_view(info@);
    let channel = match if info.len() > 0 { Some(&info[0]) } else { None } {
        Some(Value::Integer(n)) => match n.as_u64() {
            Some(c) => c,
            None => return Err(ApiInfoError::NoChannel),
        },
        _ => return Err(ApiInfoError::NoChannel),
    };
    let meta = match if info.len() > 1 { Some(&info[1]) } else { None } {
        Some(Value::Dict(m)) => m,
        _ => return Err(ApiInfoError::NoMetadata),
    };
    proof {
        assert(iv[1] == ValueView::Dict(entries_view(meta@)));
    }
    let version_map = match field(meta, "version") {
        Some(Value::Dict(m)) => m,
        _ => return Err(ApiInfoError::NoVersion),
    };
    let version = read_version(version_map);
    let ui_options = read_ui_options(meta);
    Ok(ApiInfo { channel, version, ui_options })
}

} // verus!
