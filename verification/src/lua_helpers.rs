//! Helpers that the Lua vendor profiles call, and the search path of the Lua
//! modules.
use vstd::prelude::*;
use vstd::string::StringExecFns;

verus! {

/// The unsigned number that bytes `b0`, `b1` hold, least significant first.
pub open spec fn le16(b0: u8, b1: u8) -> int {
    b0 + 256 * b1
}

/// The unsigned number that bytes `b0` to `b3` hold, least significant
/// first.
pub open spec fn le32(b0: u8, b1: u8, b2: u8, b3: u8) -> int {
    b0 + 256 * b1 + 65536 * b2 + 16777216 * b3
}

/// The unsigned 16-bit number that bytes `b0`, `b1` hold, least significant
/// first.
pub fn decode_u16_le(b0: u8, b1: u8) -> (r: u16)
    ensures
        r == le16(b0, b1),
{
    b0 as u16 + (b1 as u16) * 256
}

/// The signed 16-bit number (two's complement) that bytes `b0`, `b1` hold,
/// least significant first.
pub fn decode_i16_le(b0: u8, b1: u8) -> (r: i16)
    ensures
        r == if le16(b0, b1) < 0x8000 {
            le16(b0, b1)
        } else {
            le16(b0, b1) - 0x1_0000
        },
{
    let u: u16 = b0 as u16 + (b1 as u16) * 256;
    if u < 0x8000 {
        u as i16
    } else {
        (u as i32 - 0x1_0000) as i16
    }
}

/// The unsigned 32-bit number that bytes `b0` to `b3` hold, least
/// significant first.
pub fn decode_u32_le(b0: u8, b1: u8, b2: u8, b3: u8) -> (r: u32)
    ensures
        r == le32(b0, b1, b2, b3),
{
    b0 as u32 + (b1 as u32) * 256 + (b2 as u32) * 65536 + (b3 as u32) * 16777216
}

/// The signed 32-bit number (two's complement) that bytes `b0` to `b3`
/// hold, least significant first.
pub fn decode_i32_le(b0: u8, b1: u8, b2: u8, b3: u8) -> (r: i32)
    ensures
        r == if le32(b0, b1, b2, b3) < 0x8000_0000 {
            le32(b0, b1, b2, b3)
        } else {
            le32(b0, b1, b2, b3) - 0x1_0000_0000
        },
{
    let u: u32 = b0 as u32 + (b1 as u32) * 256 + (b2 as u32) * 65536 + (b3 as u32) * 16777216;
    if u < 0x8000_0000 {
        u as i32
    } else {
        (u as i64 - 0x1_0000_0000) as i32
    }
}

/// The two search patterns of directory `v`: its modules and its packages.
pub open spec fn package_entry(v: Seq<char>) -> Seq<char> {
    v + "/?.lua;"@ + v + "/?/init.lua"@
}

/// The Lua search path of directories `ps`: their patterns, separated by `;`.
pub open spec fn package_path(ps: Seq<Seq<char>>) -> Seq<char>
    decreases ps.len(),
{
    if ps.len() == 0 {
        Seq::empty()
    } else if ps.len() == 1 {
        package_entry(ps[0])
    } else {
        package_path(ps.drop_last()) + ";"@ + package_entry(ps.last())
    }
}

/// The Lua search path of the directories `paths`.
pub fn lua_package_path(paths: &Vec<String>) -> (r: String)
    ensures
        r@ == package_path(paths@.map_values(|p: String| p@)),
{
    let ghost ps = paths@.map_values(|p: String| p@);
    let mut out = String::new();
    let mut i: usize = 0;
    while i < paths.len()
        invariant
            i <= paths@.len(),
            ps == paths@.map_values(|p: String| p@),
            out@ == package_path(ps.subrange(0, i as int)),
        decreases paths@.len() - i,
    {
        let ghost before = out@;
        if i > 0 {
            out.append(";");
        }
        let p = paths[i].as_str();
        out.append(p);
        out.append("/?.lua;");
        out.append(p);
        out.append("/?/init.lua");
        proof {
            let s = ps.subrange(0, i + 1);
            assert(s.drop_last() =~= ps.subrange(0, i as int));
            assert(s.last() == paths@[i as int]@);
            if i == 0 {
                assert(out@ =~= package_entry(s[0]));
            } else {
                assert(out@ =~= before + ";"@ + package_entry(s.last()));
            }
        }
        i += 1;
    }
    assert(ps.subrange(0, paths@.len() as int) =~= ps);
    out
}

} // verus!
