//! What the server screens show of a pinged server, and what they decide.

use crate::sysinfo::is_ws;
use crate::text::{decimal, push_char, push_decimal, push_signed_decimal, push_str, signed_decimal};
use base64::Engine;
use vstd::prelude::*;
use vstd::string::{StrSliceExecFns, StringSliceAdditionalSpecFns};
use vstd::utf8::{decode_utf8, encode_utf8, is_char_boundary};

verus! {

/// Which row of the ping icon strip (its texture's `y` coordinate) shows a
/// ping of `ms` milliseconds.
pub open spec fn spec_ping_icon_row(ms: u64) -> u32 {
    if ms <= 75 {
        16
    } else if ms <= 150 {
        24
    } else if ms <= 225 {
        32
    } else if ms <= 350 {
        40
    } else if ms <= 999 {
        48
    } else {
        56
    }
}

/// Which row of the ping icon strip shows a ping of `ms` milliseconds:
/// five bars up to 75 ms, then fewer, and the last row past 999 ms.
pub fn ping_icon_row(ms: u64) -> (r: u32)
    ensures
        r == spec_ping_icon_row(ms),
{
    if ms <= 75 {
        16
    } else if ms <= 150 {
        24
    } else if ms <= 225 {
        32
    } else if ms <= 350 {
        40
    } else if ms <= 999 {
        48
    } else {
        56
    }
}

/// The ping icon's rows by ping: five bars (row 16) up to 75 ms, four
/// (row 24) from 76 to 150 ms, three (row 32) from 151 to 225 ms, two
/// (row 40) from 226 to 350 ms, one (row 48) from 351 to 999 ms, and the
/// last row (56) from 1000 ms on; a longer ping never shows a better row.
pub proof fn law_ping_rows(ms: u64, later: u64)
    ensures
        ms <= 75 ==> spec_ping_icon_row(ms) == 16,
        76 <= ms <= 150 ==> spec_ping_icon_row(ms) == 24,
        151 <= ms <= 225 ==> spec_ping_icon_row(ms) == 32,
        226 <= ms <= 350 ==> spec_ping_icon_row(ms) == 40,
        351 <= ms <= 999 ==> spec_ping_icon_row(ms) == 48,
        1000 <= ms ==> spec_ping_icon_row(ms) == 56,
        ms <= later ==> spec_ping_icon_row(ms) <= spec_ping_icon_row(later),
{
}

/// The player count of a server: `online/max`, marked out of date when the
/// server speaks a protocol this client does not support.
pub open spec fn spec_players_text(supported: bool, online: i32, max: i32) -> Seq<char> {
    (if supported {
        Seq::empty()
    } else {
        "Out of date "@
    }) + signed_decimal(online as int) + seq!['/'] + signed_decimal(max as int)
}

/// The player count of a server as the list shows it.
pub fn players_text(supported: bool, online: i32, max: i32) -> (r: String)
    ensures
        r@ == spec_players_text(supported, online, max),
{
    let mut out = String::new();
    if !supported {
        push_str(&mut out, "Out of date ");
    }
    push_signed_decimal(&mut out, online as i64);
    push_char(&mut out, '/');
    push_signed_decimal(&mut out, max as i64);
    assert(out@ =~= spec_players_text(supported, online, max));
    out
}

/// The colour of the player count: its green and blue parts, full for a
/// supported protocol and dimmed (towards red) otherwise.
pub fn players_colour(supported: bool) -> (r: (u8, u8))
    ensures
        r == if supported {
            (255u8, 255u8)
        } else {
            (85u8, 85u8)
        },
{
    if supported {
        (255, 255)
    } else {
        (85, 85)
    }
}

/// The version line of a server: its protocol name, preceded by the number
/// of Forge mods when it has any.
pub open spec fn spec_version_text(forge_mods: usize, protocol_name: Seq<char>) -> Seq<char> {
    if forge_mods > 0 {
        decimal(forge_mods as nat) + " mods + "@ + protocol_name
    } else {
        protocol_name
    }
}

/// The version line of a server as the list shows it.
pub fn version_text(forge_mods: usize, protocol_name: &str) -> (r: String)
    ensures
        r@ == spec_version_text(forge_mods, protocol_name@),
{
    let mut out = String::new();
    if forge_mods > 0 {
        push_decimal(&mut out, forge_mods as u64);
        push_str(&mut out, " mods + ");
    }
    push_str(&mut out, protocol_name);
    assert(out@ =~= spec_version_text(forge_mods, protocol_name@));
    out
}

/// The characters of `s` that are not white space, in order.
pub open spec fn without_ws(s: Seq<char>) -> Seq<char>
    decreases s.len(),
{
    if s.len() == 0 {
        Seq::empty()
    } else {
        without_ws(s.drop_last()) + if is_ws(s.last()) {
            Seq::empty()
        } else {
            seq![s.last()]
        }
    }
}

/// What standard, padded base64 `input` decodes to; `None` when `input` is
/// not such base64.
pub uninterp spec fn spec_base64_decode(input: Seq<u8>) -> Option<Seq<u8>>;

/// `base64::engine::general_purpose::STANDARD.decode`: the bytes that
/// standard base64 `input` encodes (named `spec_base64_decode`), `None` when
/// it is not valid base64. Which inputs are valid is not stated.
#[verifier::external_body]
fn base64_decode(input: &[u8]) -> (r: Option<Vec<u8>>)
    ensures
        match r {
            Some(v) => spec_base64_decode(input@) == Some(v@),
            None => spec_base64_decode(input@) is None,
        },
{
    match base64::engine::general_purpose::STANDARD.decode(input) {
        Ok(v) => Some(v),
        Err(_) => None,
    }
}

/// Length in bytes of the `data:image/png;base64,` prefix of a favicon.
pub const FAVICON_PREFIX_LEN: usize = 22;

/// The image bytes of a server's favicon: the base64 text after the
/// 22-byte data-URL prefix, with white space removed, decoded.
pub open spec fn spec_favicon_data(icon: Seq<u8>) -> Option<Seq<u8>> {
    spec_base64_decode(
        encode_utf8(without_ws(decode_utf8(icon.subrange(22, icon.len() as int)))),
    )
}

/// The image bytes of a server's favicon, a `data:image/png;base64,` URL;
/// `None` when its base64 does not decode. The prefix is skipped by length,
/// not checked.
pub fn favicon_data(icon: &str) -> (r: Option<Vec<u8>>)
    requires
        is_char_boundary(icon.spec_bytes(), FAVICON_PREFIX_LEN as int),
    ensures
        match r {
            Some(v) => spec_favicon_data(icon.spec_bytes()) == Some(v@),
            None => spec_favicon_data(icon.spec_bytes()) is None,
        },
{
    proof {
        vstd::utf8::encode_utf8_valid_utf8(icon@);
    }
    let (_, rest) = icon.split_at(FAVICON_PREFIX_LEN);
    proof {
        vstd::utf8::encode_utf8_decode_utf8(rest@);
    }
    let cs = crate::text::chars_of(rest);
    let mut data = String::new();
    let mut i: usize = 0;
    while i < cs.len()
        invariant
            cs@ == rest@,
            i <= cs@.len(),
            data@ == without_ws(cs@.subrange(0, i as int)),
        decreases cs@.len() - i,
    {
        let c = cs[i];
        let ghost prefix = cs@.subrange(0, i + 1);
        assert(prefix.drop_last() =~= cs@.subrange(0, i as int));
        if !crate::sysinfo::is_whitespace(c) {
            push_char(&mut data, c);
        }
        i = i + 1;
        assert(data@ =~= without_ws(prefix));
    }
    assert(cs@.subrange(0, cs@.len() as int) =~= cs@);
    base64_decode(data.as_str().as_bytes())
}

/// The question asked before deleting a server from the list.
pub open spec fn spec_delete_prompt(name: Seq<char>, address: Seq<char>) -> Seq<char> {
    "Are you sure you wish to delete "@ + name + seq![' '] + address + seq!['?']
}

/// The question asked before deleting the server `name` at `address`.
pub fn delete_prompt(name: &str, address: &str) -> (r: String)
    ensures
        r@ == spec_delete_prompt(name@, address@),
{
    let mut out = String::new();
    push_str(&mut out, "Are you sure you wish to delete ");
    push_str(&mut out, name);
    push_char(&mut out, ' ');
    push_str(&mut out, address);
    push_char(&mut out, '?');
    assert(out@ =~= spec_delete_prompt(name@, address@));
    out
}

/// The background colour (red, green, blue, alpha) of a server entry:
/// green when selected, darker when the pointer is over it.
pub fn entry_colour(selected: bool, hovered: bool) -> (r: (u8, u8, u8, u8))
    ensures
        r == if selected {
            (0u8, 110u8, 0u8, 230u8)
        } else if hovered {
            (0u8, 0u8, 0u8, 200u8)
        } else {
            (0u8, 0u8, 0u8, 100u8)
        },
{
    if selected {
        (0, 110, 0, 230)
    } else if hovered {
        (0, 0, 0, 200)
    } else {
        (0, 0, 0, 100)
    }
}

/// Whether the Join, Edit and Delete buttons are disabled: exactly when no
/// server is selected.
pub fn buttons_disabled(selected: Option<usize>) -> (r: bool)
    ensures
        r == (selected is None),
{
    selected.is_none()
}

/// Why the direct-connection screen refuses to connect to `target`: it
/// asks for an address when none was entered, and goes ahead (`None`)
/// otherwise.
pub fn connect_refusal(target: &str) -> (r: Option<String>)
    ensures
        match r {
            Some(m) => target@.len() == 0 && m@ == "Please enter a Server Address"@,
            None => target@.len() > 0,
        },
{
    if target.unicode_len() == 0 {
        let mut m = String::new();
        push_str(&mut m, "Please enter a Server Address");
        Some(m)
    } else {
        None
    }
}

} // verus!
