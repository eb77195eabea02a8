//! Text the Windows registration passes to the system: NUL-terminated UTF-16
//! strings and the uninstall registry key.

use crate::text;
use vstd::prelude::*;

verus! {

/// The UTF-16 code units of one character.
pub open spec fn utf16_units(c: char) -> Seq<u16> {
    let u = c as u32;
    if u < 0x10000 {
        seq![u as u16]
    } else {
        seq![(0xD800 + (u - 0x10000) / 0x400) as u16, (0xDC00 + (u - 0x10000) % 0x400) as u16]
    }
}

/// The UTF-16 encoding of a text (`str::encode_utf16`).
pub open spec fn utf16(s: Seq<char>) -> Seq<u16>
    decreases s.len(),
{
    if s.len() == 0 {
        Seq::empty()
    } else {
        utf16(s.drop_last()) + utf16_units(s.last())
    }
}

/// A NUL-terminated UTF-16 string, as Win32 calls take them.
pub fn wide(s: &str) -> (r: Vec<u16>)
    ensures
        r@ == utf16(s@).push(0u16),
{
    let chars = crate::text::chars_of(s);
    let mut out: Vec<u16> = Vec::new();
    let mut i: usize = 0;
    while i < chars.len()
        invariant
            i <= chars@.len(),
            chars@ == s@,
            out@ == utf16(chars@.take(i as int)),
        decreases chars.len() - i,
    {
        let u = chars[i] as u32;
        proof {
            vstd::utf8::char_is_scalar(chars@[i as int]);
        }
        if u < 0x10000 {
            out.push(u as u16);
        } else {
            out.push((0xD800 + (u - 0x10000) / 0x400) as u16);
            out.push((0xDC00 + (u - 0x10000) % 0x400) as u16);
        }
        assert(chars@.take(i + 1).drop_last() =~= chars@.take(i as int));
        assert(chars@.take(i + 1).last() == chars@[i as int]);
        assert(out@ =~= utf16(chars@.take(i + 1)));
        i += 1;
    }
    assert(chars@.take(chars@.len() as int) =~= chars@);
    out.push(0);
    out
}

/// The registry key of the uninstall entry, under `HKEY_CURRENT_USER`.
pub const UNINSTALL_KEY: &'static str =
    "Software\\Microsoft\\Windows\\CurrentVersion\\Uninstall\\Letronna";

/// `UNINSTALL_KEY` as a NUL-terminated UTF-16 string.
pub fn registry_key() -> (r: Vec<u16>)
    ensures
        r@ == utf16(UNINSTALL_KEY@).push(0u16),
{
    wide(UNINSTALL_KEY)
}

/// Characters of a registry string read back: `size` bytes of UTF-16 that
/// end in a NUL, so `size / 2 - 1` units, or none.
pub fn registry_units(size: u32) -> (n: usize)
    ensures
        n == if size / 2 >= 1 {
            size / 2 - 1
        } else {
            0
        },
{
    let units = (size / 2) as usize;
    if units >= 1 {
        units - 1
    } else {
        0
    }
}

/// Whether the installed copy is current: the registry names this version,
/// the Start Menu shortcut exists, and this build is not newer than the
/// installed file.
pub fn up_to_date(installed_version: &Option<String>, version: &str, shortcut_exists: bool, newer: bool) -> (r: bool)
    ensures
        r == ((match installed_version {
            Some(v) => v@ == version@,
            None => false,
        }) && shortcut_exists && !newer),
{
    let same = match installed_version {
        Some(v) => text::same(v.as_str(), version),
        None => false,
    };
    same && shortcut_exists && !newer
}

/// The values of the uninstall entry for a copy installed in `dir` as
/// `exe`, in the order they are written.
pub open spec fn entry_values(dir: Seq<char>, exe: Seq<char>, version: Seq<char>) -> Seq<
    (Seq<char>, Seq<char>),
> {
    seq![
        ("DisplayName"@, "Letronna"@),
        ("DisplayVersion"@, version),
        ("Publisher"@, "Gadlus Engineering"@),
        ("InstallLocation"@, dir),
        ("DisplayIcon"@, exe),
        ("UninstallString"@, "\""@ + exe + "\" --uninstall"@),
        ("URLInfoAbout"@, "https://github.com/wweziza/letronna"@),
        ("NoModify"@, "1"@),
        ("NoRepair"@, "1"@),
    ]
}

fn entry(out: &mut Vec<(String, String)>, name: &str, value: &str)
    ensures
        final(out)@ == old(out)@.push(final(out)@.last()),
        final(out)@.last().0@ == name@,
        final(out)@.last().1@ == value@,
{
    out.push((text::owned(name), text::owned(value)));
}

/// The registry values that make the installed copy show up in Apps &
/// features.
pub fn uninstall_entry(dir: &str, exe: &str, version: &str) -> (r: Vec<(String, String)>)
    ensures
        r@.len() == 9,
        forall|k: int|
            0 <= k < 9 ==> (#[trigger] r@[k]).0@ == entry_values(dir@, exe@, version@)[k].0
                && r@[k].1@ == entry_values(dir@, exe@, version@)[k].1,
{
    let mut uninstall = text::owned("\"");
    text::push_str(&mut uninstall, exe);
    text::push_str(&mut uninstall, "\" --uninstall");
    let mut out: Vec<(String, String)> = Vec::new();
    entry(&mut out, "DisplayName", "Letronna");
    entry(&mut out, "DisplayVersion", version);
    entry(&mut out, "Publisher", "Gadlus Engineering");
    entry(&mut out, "InstallLocation", dir);
    entry(&mut out, "DisplayIcon", exe);
    entry(&mut out, "UninstallString", uninstall.as_str());
    entry(&mut out, "URLInfoAbout", "https://github.com/wweziza/letronna");
    entry(&mut out, "NoModify", "1");
    entry(&mut out, "NoRepair", "1");
    out
}

} // verus!
