//! Mach-O inspection: does a (thin or fat) Mach-O image carry an
//! `LC_ENCRYPTION_INFO(_64)` load command whose `cryptid` is 1?
use vstd::prelude::*;

verus! {

pub const MH_MAGIC: u32 = 0xfeedface;
pub const MH_CIGAM: u32 = 0xcefaedfe;
pub const MH_MAGIC_64: u32 = 0xfeedfacf;
pub const MH_CIGAM_64: u32 = 0xcffaedfe;
pub const FAT_MAGIC: u32 = 0xcafebabe;
pub const FAT_CIGAM: u32 = 0xbebafeca;
pub const FAT_MAGIC_64: u32 = 0xcafebabf;
pub const FAT_CIGAM_64: u32 = 0xbfbafeca;
pub const LC_ENCRYPTION_INFO: u32 = 0x21;
pub const LC_ENCRYPTION_INFO_64: u32 = 0x2c;

/// The 32-bit word stored at `off` (little- or big-endian), if the four bytes exist.
pub open spec fn spec_u32_at(b: Seq<u8>, off: int, little_endian: bool) -> Option<u32> {
    if 0 <= off && off + 4 <= b.len() {
        Some(
            if little_endian {
                (b[off] + 256 * b[off + 1] + 65536 * b[off + 2] + 16777216 * b[off + 3]) as u32
            } else {
                (b[off + 3] + 256 * b[off + 2] + 65536 * b[off + 1] + 16777216 * b[off]) as u32
            },
        )
    } else {
        None
    }
}

/// Walks `n` load commands starting at `off`: `None` when a command cannot be read or
/// is malformed, `Some(cryptid == 1)` at the first encryption-info command, and
/// `Some(false)` when none of the `n` commands is one.
pub open spec fn spec_scan_load_commands(b: Seq<u8>, little_endian: bool, off: int, n: nat) -> Option<bool>
    decreases n,
{
    if n == 0 {
        Some(false)
    } else {
        match spec_u32_at(b, off, little_endian) {
            None => None,
            Some(cmd) => match spec_u32_at(b, off + 4, little_endian) {
                None => None,
                Some(cmdsize) => {
                    if cmdsize < 8 || off + cmdsize > b.len() {
                        None
                    } else if cmd == LC_ENCRYPTION_INFO || cmd == LC_ENCRYPTION_INFO_64 {
                        match spec_u32_at(b, off + 16, little_endian) {
                            None => None,
                            Some(cryptid) => Some(cryptid == 1),
                        }
                    } else {
                        spec_scan_load_commands(b, little_endian, off + cmdsize, (n - 1) as nat)
                    }
                },
            },
        }
    }
}

/// At a well-formed `LC_ENCRYPTION_INFO` (0x21) or `LC_ENCRYPTION_INFO_64` (0x2c) load
/// command, the scan ends: the image is encrypted exactly when the command's `cryptid` word
/// (at offset 16 of the command) is 1, and unencrypted when it is 0 or any other value.
pub proof fn lemma_scan_at_encryption_info(b: Seq<u8>, little_endian: bool, off: int, n: nat, cmd: u32, cmdsize: u32, cryptid: u32)
    requires
        n >= 1,
        spec_u32_at(b, off, little_endian) == Some(cmd),
        cmd == 0x21 || cmd == 0x2c,
        spec_u32_at(b, off + 4, little_endian) == Some(cmdsize),
        8 <= cmdsize,
        off + cmdsize <= b.len(),
        spec_u32_at(b, off + 16, little_endian) == Some(cryptid),
    ensures
        cryptid == 1 ==> spec_scan_load_commands(b, little_endian, off, n) == Some(true),
        cryptid != 1 ==> spec_scan_load_commands(b, little_endian, off, n) == Some(false),
{
}

/// A well-formed load command of any other kind is passed over: the scan goes on at the
/// next command, with one command fewer to read.
pub proof fn lemma_scan_passes_other_commands(b: Seq<u8>, little_endian: bool, off: int, n: nat, cmd: u32, cmdsize: u32)
    requires
        n >= 1,
        spec_u32_at(b, off, little_endian) == Some(cmd),
        cmd != 0x21 && cmd != 0x2c,
        spec_u32_at(b, off + 4, little_endian) == Some(cmdsize),
        8 <= cmdsize,
        off + cmdsize <= b.len(),
    ensures
        spec_scan_load_commands(b, little_endian, off, n) == spec_scan_load_commands(b, little_endian, off + cmdsize, (n - 1) as nat),
{
}

/// With no command left to read, nothing is encrypted.
pub proof fn lemma_scan_no_commands(b: Seq<u8>, little_endian: bool, off: int)
    ensures
        spec_scan_load_commands(b, little_endian, off, 0) == Some(false),
{
}

/// A thin image whose first load command (right after the 28- or 32-byte header) is a
/// well-formed encryption-info command is encrypted exactly when that command's `cryptid`
/// is 1.
pub proof fn lemma_thin_image_first_command_encryption(b: Seq<u8>, little_endian: bool, is_64: bool, cmd: u32, cmdsize: u32, cryptid: u32)
    requires
        spec_u32_at(b, 16, little_endian) matches Some(ncmds) && ncmds >= 1,
        spec_u32_at(b, if is_64 { 32int } else { 28int }, little_endian) == Some(cmd),
        cmd == 0x21 || cmd == 0x2c,
        spec_u32_at(b, if is_64 { 36int } else { 32int }, little_endian) == Some(cmdsize),
        8 <= cmdsize,
        (if is_64 { 32int } else { 28int }) + cmdsize <= b.len(),
        spec_u32_at(b, if is_64 { 48int } else { 44int }, little_endian) == Some(cryptid),
    ensures
        spec_parse_load_commands(b, little_endian, is_64) == Some(cryptid == 1),
{
    let off: int = if is_64 { 32 } else { 28 };
    let ncmds = spec_u32_at(b, 16, little_endian)->Some_0;
    lemma_scan_at_encryption_info(b, little_endian, off, ncmds as nat, cmd, cmdsize, cryptid);
}

/// The load-command scan of a thin Mach-O image (header of 28 or 32 bytes,
/// command count at offset 16).
pub open spec fn spec_parse_load_commands(b: Seq<u8>, little_endian: bool, is_64: bool) -> Option<bool> {
    match spec_u32_at(b, 16, little_endian) {
        None => None,
        Some(ncmds) => spec_scan_load_commands(
            b,
            little_endian,
            if is_64 { 32 } else { 28 },
            ncmds as nat,
        ),
    }
}

/// Start and length of the slice that fat-architecture record `i` describes, if its
/// fields can be read (records of 20 bytes with 32-bit fields, or of 32 bytes with
/// 64-bit fields split in high and low words).
pub open spec fn spec_fat_slice(b: Seq<u8>, little_endian: bool, wide: bool, i: int) -> Option<(int, int)> {
    if wide {
        let arch = 8 + i * 32;
        match (
            spec_u32_at(b, arch + 8, little_endian),
            spec_u32_at(b, arch + 12, little_endian),
            spec_u32_at(b, arch + 16, little_endian),
            spec_u32_at(b, arch + 20, little_endian),
        ) {
            (Some(hi), Some(lo), Some(size_hi), Some(size_lo)) => Some(
                (hi * 4294967296 + lo, size_hi * 4294967296 + size_lo),
            ),
            _ => None,
        }
    } else {
        let arch = 8 + i * 20;
        match (spec_u32_at(b, arch + 8, little_endian), spec_u32_at(b, arch + 12, little_endian)) {
            (Some(off), Some(size)) => Some((off as int, size as int)),
            _ => None,
        }
    }
}

/// Whether the bytes describe a fat image together with its byte order and record width.
pub open spec fn spec_fat_kind(b: Seq<u8>) -> Option<(bool, bool)> {
    match (spec_u32_at(b, 0, true), spec_u32_at(b, 0, false)) {
        (Some(le), Some(be)) => {
            if le == MH_MAGIC || le == MH_MAGIC_64 {
                None
            } else if le == FAT_CIGAM {
                Some((true, false))
            } else if le == FAT_CIGAM_64 {
                Some((true, true))
            } else if be == MH_CIGAM || be == MH_CIGAM_64 {
                None
            } else if be == FAT_MAGIC {
                Some((false, false))
            } else if be == FAT_MAGIC_64 {
                Some((false, true))
            } else {
                None
            }
        },
        _ => None,
    }
}

/// What inspecting `b` yields: `Some(r)` when the inspection returns `r`, and `None`
/// when it never returns (a fat record that names the whole image again sends the
/// inspection into itself forever).  `r` is `Some(true)` / `Some(false)` for an
/// encrypted / unencrypted Mach-O image, and `None` when the bytes are not a Mach-O
/// image or are malformed.  For a fat image the architectures are visited in order;
/// the first encrypted slice, or the first slice that cannot be read, decides.
pub open spec fn spec_macho_outcome(b: Seq<u8>) -> Option<Option<bool>>
    decreases b.len(), 1int, 0int,
{
    match (spec_u32_at(b, 0, true), spec_u32_at(b, 0, false)) {
        (Some(le), Some(be)) => {
            if le == MH_MAGIC {
                Some(spec_parse_load_commands(b, true, false))
            } else if le == MH_MAGIC_64 {
                Some(spec_parse_load_commands(b, true, true))
            } else if le == FAT_CIGAM || le == FAT_CIGAM_64 {
                match spec_u32_at(b, 4, true) {
                    None => Some(None),
                    Some(n) => spec_fat_scan(b, true, le == FAT_CIGAM_64, 0, n as nat),
                }
            } else if be == MH_CIGAM {
                Some(spec_parse_load_commands(b, false, false))
            } else if be == MH_CIGAM_64 {
                Some(spec_parse_load_commands(b, false, true))
            } else if be == FAT_MAGIC || be == FAT_MAGIC_64 {
                match spec_u32_at(b, 4, false) {
                    None => Some(None),
                    Some(n) => spec_fat_scan(b, false, be == FAT_MAGIC_64, 0, n as nat),
                }
            } else {
                Some(None)
            }
        },
        _ => Some(None),
    }
}

/// The architectures `i .. n` of a fat image, visited in order (same reading of the
/// result as [`spec_macho_outcome`]).
pub open spec fn spec_fat_scan(b: Seq<u8>, little_endian: bool, wide: bool, i: nat, n: nat) -> Option<Option<bool>>
    decreases b.len(), 0int, n - i,
{
    if i >= n {
        Some(Some(false))
    } else {
        match spec_fat_slice(b, little_endian, wide, i as int) {
            None => Some(None),
            Some((off, size)) => {
                if off + size > b.len() {
                    Some(None)
                } else if size == b.len() {
                    None
                } else {
                    match spec_macho_outcome(b.subrange(off, off + size)) {
                        None => None,
                        Some(None) => Some(None),
                        Some(Some(true)) => Some(Some(true)),
                        Some(Some(false)) => spec_fat_scan(b, little_endian, wide, i + 1, n),
                    }
                }
            },
        }
    }
}

/// Reads the 32-bit word at `offset`, or `None` when the slice is too short.
pub fn read_u32(bytes: &[u8], offset: u64, little_endian: bool) -> (r: Option<u32>)
    ensures
        r == spec_u32_at(bytes@, offset as int, little_endian),
{
    let len = bytes.len() as u64;
    if offset > len || len - offset < 4 {
        return None;
    }
    let i = offset as usize;
    let b0 = bytes[i] as u32;
    let b1 = bytes[i + 1] as u32;
    let b2 = bytes[i + 2] as u32;
    let b3 = bytes[i + 3] as u32;
    if little_endian {
        Some(b0 + 256 * b1 + 65536 * b2 + 16777216 * b3)
    } else {
        Some(b3 + 256 * b2 + 65536 * b1 + 16777216 * b0)
    }
}

/// Scans the load commands of a thin Mach-O image for an encryption-info command.
pub fn parse_macho_load_commands(bytes: &[u8], little_endian: bool, is_64: bool) -> (r: Option<bool>)
    ensures
        r == spec_parse_load_commands(bytes@, little_endian, is_64),
{
    let header_size: u64 = if is_64 { 32 } else { 28 };
    let ncmds = match read_u32(bytes, 16, little_endian) {
        Some(n) => n,
        None => return None,
    };
    let len = bytes.len() as u64;
    let mut offset: u64 = header_size;
    let mut i: u32 = 0;
    while i < ncmds
        invariant
            i <= ncmds,
            len == bytes@.len(),
            offset <= len + 32,
            spec_parse_load_commands(bytes@, little_endian, is_64) == spec_scan_load_commands(
                bytes@,
                little_endian,
                offset as int,
                (ncmds - i) as nat,
            ),
        decreases ncmds - i,
    {
        let cmd = match read_u32(bytes, offset, little_endian) {
            Some(c) => c,
            None => return None,
        };
        let cmdsize = match read_u32(bytes, offset + 4, little_endian) {
            Some(c) => c as u64,
            None => return None,
        };
        if cmdsize < 8 || cmdsize > len || offset > len - cmdsize {
            return None;
        }
        if cmd == LC_ENCRYPTION_INFO || cmd == LC_ENCRYPTION_INFO_64 {
            if len < 16 || offset > len - 16 {
                return None;
            }
            let cryptid = match read_u32(bytes, offset + 16, little_endian) {
                Some(c) => c,
                None => return None,
            };
            return Some(cryptid == 1);
        }
        offset = offset + cmdsize;
        i = i + 1;
    }
    Some(false)
}

/// Reads fat-architecture record `i` (see [`spec_fat_slice`]).
fn read_fat_slice(bytes: &[u8], little_endian: bool, wide: bool, i: u32) -> (r: Option<(u64, u64)>)
    ensures
        match spec_fat_slice(bytes@, little_endian, wide, i as int) {
            None => r is None,
            Some((off, size)) => r matches Some((o, s)) && o == off && s == size,
        },
{
    if wide {
        let arch: u64 = 8 + (i as u64) * 32;
        let hi = match read_u32(bytes, arch + 8, little_endian) { Some(v) => v as u64, None => return None };
        let lo = match read_u32(bytes, arch + 12, little_endian) { Some(v) => v as u64, None => return None };
        let size_hi = match read_u32(bytes, arch + 16, little_endian) { Some(v) => v as u64, None => return None };
        let size_lo = match read_u32(bytes, arch + 20, little_endian) { Some(v) => v as u64, None => return None };
        Some((hi * 4294967296 + lo, size_hi * 4294967296 + size_lo))
    } else {
        let arch: u64 = 8 + (i as u64) * 20;
        let off = match read_u32(bytes, arch + 8, little_endian) { Some(v) => v as u64, None => return None };
        let size = match read_u32(bytes, arch + 12, little_endian) { Some(v) => v as u64, None => return None };
        Some((off, size))
    }
}

/// Inspects a (thin or fat) Mach-O image for an active `cryptid`; returns `None` exactly
/// when the plain inspection would never return (see [`spec_macho_outcome`]).
pub fn macho_outcome(bytes: &[u8]) -> (r: Option<Option<bool>>)
    ensures
        r == spec_macho_outcome(bytes@),
    decreases bytes@.len(),
{
    let magic_le = match read_u32(bytes, 0, true) {
        Some(m) => m,
        None => return Some(None),
    };
    let magic_be = match read_u32(bytes, 0, false) {
        Some(m) => m,
        None => return Some(None),
    };
    let little_endian: bool;
    let wide: bool;
    if magic_le == MH_MAGIC {
        return Some(parse_macho_load_commands(bytes, true, false));
    } else if magic_le == MH_MAGIC_64 {
        return Some(parse_macho_load_commands(bytes, true, true));
    } else if magic_le == FAT_CIGAM || magic_le == FAT_CIGAM_64 {
        little_endian = true;
        wide = magic_le == FAT_CIGAM_64;
    } else if magic_be == MH_CIGAM {
        return Some(parse_macho_load_commands(bytes, false, false));
    } else if magic_be == MH_CIGAM_64 {
        return Some(parse_macho_load_commands(bytes, false, true));
    } else if magic_be == FAT_MAGIC || magic_be == FAT_MAGIC_64 {
        little_endian = false;
        wide = magic_be == FAT_MAGIC_64;
    } else {
        return Some(None);
    }
    let n = match read_u32(bytes, 4, little_endian) {
        Some(n) => n,
        None => return Some(None),
    };
    let ulen = bytes.len();
    let len = ulen as u64;
    let mut i: u32 = 0;
    while i < n
        invariant
            i <= n,
            len == bytes@.len(),
            ulen == bytes@.len(),
            spec_macho_outcome(bytes@) == spec_fat_scan(bytes@, little_endian, wide, i as nat, n as nat),
        decreases n - i,
    {
        let (off, size) = match read_fat_slice(bytes, little_endian, wide, i) {
            Some(p) => p,
            None => return Some(None),
        };
        if off > len || size > len - off {
            return Some(None);
        }
        if size == len {
            return None;
        }
        let start = off as usize;
        let end = (off + size) as usize;
        let slice = &bytes[start..end];
        assert(slice@ == bytes@.subrange(off as int, off + size));
        assert(slice@.len() < bytes@.len());
        match macho_outcome(slice) {
            None => return None,
            Some(None) => return Some(None),
            Some(Some(true)) => return Some(Some(true)),
            Some(Some(false)) => {},
        }
        i = i + 1;
    }
    Some(Some(false))
}

/// Whether the Mach-O image is FairPlay-encrypted (`Some(true)`), unencrypted
/// (`Some(false)`), or not a readable Mach-O image (`None`).
pub fn macho_cryptid_one(bytes: &[u8]) -> (r: Option<bool>)
    requires
        spec_macho_outcome(bytes@) is Some,
    ensures
        Some(r) == spec_macho_outcome(bytes@),
{
    match macho_outcome(bytes) {
        Some(r) => r,
        None => None,
    }
}

} // verus!
