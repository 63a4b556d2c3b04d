//! The bridge's data: Neovim's msgpack values, the redraw events parsed from them, the commands
//! that go back, and how the embedded Neovim is started.

pub mod api_info;
pub mod commands;
pub mod events;
pub mod value;

use vstd::prelude::*;

use crate::bridge::api_info::ApiInfo;
use crate::text::{chars_of, str_eq, string_from_chars, substring};

verus! {

/// The oldest Neovim the shell attaches to.
pub const NEOVIM_REQUIRED_VERSION: (u64, u64, u64) = (0, 10, 0);

/// How to start the embedded Neovim.
#[derive(Debug)]
pub struct BridgeConfig {
    pub nvim_bin: String,
    pub nvim_args: Vec<String>,
    pub files: Vec<String>,
    pub cwd: Option<String>,
    /// Value for NVIM_APPNAME; `None` leaves the environment alone.
    pub app_name: Option<String>,
    pub grid: (u32, u32),
    pub ext_tabline: bool,
    pub client_version: (u64, u64, u64),
}

impl Default for BridgeConfig {
    /// `nvim` from PATH as the `nvs-ide` app, a 100x40 grid, no tabline.
    fn default() -> (c: BridgeConfig)
        ensures
            c.nvim_bin@ == "nvim"@,
            c.nvim_args@.len() == 0,
            c.files@.len() == 0,
            c.cwd is None,
            c.app_name matches Some(a) && a@ == "nvs-ide"@,
            c.grid == (100u32, 40u32),
            !c.ext_tabline,
            c.client_version == (0u64, 1u64, 0u64),
    {
        BridgeConfig {
            nvim_bin: String::from_str("nvim"),
            nvim_args: Vec::new(),
            files: Vec::new(),
            cwd: None,
            app_name: Some(String::from_str("nvs-ide")),
            grid: (100, 40),
            ext_tabline: false,
            client_version: (0, 1, 0),
        }
    }
}

pub open spec fn strings_view(v: Seq<String>) -> Seq<Seq<char>> {
    Seq::new(v.len(), |i: int| v[i]@)
}

/// The arguments Neovim is started with: the configured ones, `--embed` unless they already
/// hold it, then the files to open.
pub open spec fn spec_command_args(nvim_args: Seq<Seq<char>>, files: Seq<Seq<char>>) -> Seq<Seq<char>> {
    if nvim_args.contains("--embed"@) {
        nvim_args + files
    } else {
        nvim_args.push("--embed"@) + files
    }
}

fn clone_strings(v: &Vec<String>, out: &mut Vec<String>)
    ensures
        strings_view(final(out)@) == strings_view(old(out)@) + strings_view(v@),
{
    let ghost start = strings_view(out@);
    let mut i: usize = 0;
    while i < v.len()
        invariant
            i <= v@.len(),
            strings_view(out@) == start + strings_view(v@).take(i as int),
        decreases v@.len() - i,
    {
        let ghost before = out@;
        let s = string_from_chars(chars_of(v[i].as_str()).as_slice());
        out.push(s);
        proof {
            assert(strings_view(out@) =~= strings_view(before).push(v@[i as int]@));
            assert(strings_view(v@).take(i + 1) =~= strings_view(v@).take(i as int).push(v@[i as int]@));
        }
        i += 1;
    }
    proof {
        assert(strings_view(v@).take(i as int) =~= strings_view(v@));
    }
}

/// The command-line arguments for the embedded Neovim (see `spec_command_args`).
pub fn command_args(config: &BridgeConfig) -> (args: Vec<String>)
    ensures
        strings_view(args@) == spec_command_args(strings_view(config.nvim_args@), strings_view(config.files@)),
{
    let mut args: Vec<String> = Vec::new();
    proof {
        assert(strings_view(args@) =~= Seq::<Seq<char>>::empty());
    }
    clone_strings(&config.nvim_args, &mut args);
    let ghost na = strings_view(config.nvim_args@);
    let mut has_embed = false;
    let mut i: usize = 0;
    while i < config.nvim_args.len()
        invariant
            i <= config.nvim_args@.len(),
            na == strings_view(config.nvim_args@),
            has_embed == na.take(i as int).contains("--embed"@),
        decreases config.nvim_args@.len() - i,
    {
        proof {
            assert(na.take(i + 1) =~= na.take(i as int).push(na[i as int]));
        }
        if str_eq(config.nvim_args[i].as_str(), "--embed") {
            has_embed = true;
            proof {
                assert(na.take(i + 1)[i as int] == "--embed"@);
            }
        }
        i += 1;
    }
    proof {
        assert(na.take(i as int) =~= na);
    }
    if !has_embed {
        let ghost before = args@;
        args.push(String::from_str("--embed"));
        proof {
            assert(strings_view(args@) =~= strings_view(before).push("--embed"@));
        }
    }
    clone_strings(&config.files, &mut args);
    args
}

/// Is the attached Neovim new enough?
pub fn version_supported(info: &ApiInfo) -> (b: bool)
    ensures
        b == (info.version.major > 0 || (info.version.major == 0 && (info.version.minor > 10 || (info.version.minor
            == 10 && info.version.patch >= 0)))),
{
    let (major, minor, patch) = NEOVIM_REQUIRED_VERSION;
    info.version.at_least(major, minor, patch)
}

/// A path without Windows' verbatim prefix `\\?\`.
pub open spec fn spec_strip_verbatim(p: Seq<char>) -> Seq<char> {
    if p.len() >= 4 && p.take(4) == seq!['\\', '\\', '?', '\\'] {
        p.skip(4)
    } else {
        p
    }
}

/// `p` without Windows' verbatim prefix `\\?\`, which `canonicalize` adds and Neovim does not
/// understand.
pub fn strip_verbatim(p: &str) -> (r: String)
    ensures
        r@ == spec_strip_verbatim(p@),
{
    let cs = chars_of(p);
    if cs.len() >= 4 && cs[0] == '\\' && cs[1] == '\\' && cs[2] == '?' && cs[3] == '\\' {
        proof {
            assert(cs@.take(4) =~= seq!['\\', '\\', '?', '\\']);
        }
        substring(&cs, 4, cs.len())
    } else {
        proof {
            if cs@.len() >= 4 && cs@.take(4) == seq!['\\', '\\', '?', '\\'] {
                assert(cs@.take(4)[0] == '\\');
                assert(cs@.take(4)[1] == '\\');
                assert(cs@.take(4)[2] == '?');
                assert(cs@.take(4)[3] == '\\');
            }
        }
        string_from_chars(cs.as_slice())
    }
}

} // verus!
