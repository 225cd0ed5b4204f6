//! What is watched for on a file, and who may write to the socket.
use vstd::prelude::*;

verus! {

/// The bit for "file was modified".
pub const IN_MODIFY: u32 = 0x0000_0002;

/// The bit for "file or directory created in watched directory".
pub const IN_CREATE: u32 = 0x0000_0100;

/// The bit for "watched file or directory was deleted".
pub const IN_DELETE_SELF: u32 = 0x0000_0400;

/// The bit for "watched file or directory was moved".
pub const IN_MOVE_SELF: u32 = 0x0000_0800;

/// The bits of `inotify::WatchMask::MODIFY`.
#[verifier::external_body]
fn modify() -> (bits: u32)
    ensures
        bits == IN_MODIFY,
{
    inotify::WatchMask::MODIFY.bits()
}

/// The bits of `inotify::WatchMask::CREATE`.
#[verifier::external_body]
fn create() -> (bits: u32)
    ensures
        bits == IN_CREATE,
{
    inotify::WatchMask::CREATE.bits()
}

/// The bits of `inotify::WatchMask::DELETE_SELF`.
#[verifier::external_body]
fn delete_self() -> (bits: u32)
    ensures
        bits == IN_DELETE_SELF,
{
    inotify::WatchMask::DELETE_SELF.bits()
}

/// The bits of `inotify::WatchMask::MOVE_SELF`.
#[verifier::external_body]
fn move_self() -> (bits: u32)
    ensures
        bits == IN_MOVE_SELF,
{
    inotify::WatchMask::MOVE_SELF.bits()
}

/// What a source is watched for.
pub open spec fn src_mask_bits() -> u32 {
    IN_MODIFY | IN_CREATE | IN_DELETE_SELF | IN_MOVE_SELF
}

/// What a new target is watched for.
pub open spec fn dst_mask_bits() -> u32 {
    IN_MODIFY | IN_DELETE_SELF | IN_MOVE_SELF
}

/// What a source is watched for: change, creation, deletion and move.
pub fn src_mask() -> (bits: u32)
    ensures
        bits == src_mask_bits(),
{
    modify() | create() | delete_self() | move_self()
}

/// What a new target is watched for: change, deletion and move.
pub fn dst_mask() -> (bits: u32)
    ensures
        bits == dst_mask_bits(),
{
    modify() | delete_self() | move_self()
}

/// A target is watched for no more than a source: for all but creation.
pub proof fn law_masks()
    ensures
        dst_mask_bits() & src_mask_bits() == dst_mask_bits(),
        src_mask_bits() & !dst_mask_bits() == IN_CREATE,
        src_mask_bits() == 0x0d02,
        dst_mask_bits() == 0x0c02,
{
    assert(0x0000_0002u32 | 0x0000_0400 | 0x0000_0800 == 0x0c02) by (bit_vector);
    assert(0x0000_0002u32 | 0x0000_0100 | 0x0000_0400 | 0x0000_0800 == 0x0d02) by (bit_vector);
    assert(0x0c02u32 & 0x0d02 == 0x0c02) by (bit_vector);
    assert(0x0d02u32 & !0x0c02 == 0x0100) by (bit_vector);
}

/// The permissions `mode` with writing allowed to all.
pub fn writable_by_all(mode: u32) -> (m: u32)
    ensures
        m == mode | 0o222,
        m & 0o222 == 0o222,
        m & !0o222 == mode & !0o222,
{
    assert((mode | 0o222) & 0o222 == 0o222) by (bit_vector);
    assert((mode | 0o222) & !0o222 == mode & !0o222) by (bit_vector);
    mode | 0o222
}

/// A source is watched for change, creation, deletion and move, a new target for all of
/// these but creation, and neither for anything else.
pub proof fn law_watched_for(src: u32, dst: u32)
    requires
        call_ensures(src_mask, (), src),
        call_ensures(dst_mask, (), dst),
    ensures
        src & 0x0002 != 0 && dst & 0x0002 != 0,
        src & 0x0400 != 0 && dst & 0x0400 != 0,
        src & 0x0800 != 0 && dst & 0x0800 != 0,
        src & 0x0100 != 0 && dst & 0x0100 == 0,
        src & !0x0d02u32 == 0 && dst & !0x0d02u32 == 0,
{
    law_masks();
    assert(0x0d02u32 & 0x0002 != 0 && 0x0c02u32 & 0x0002 != 0) by (bit_vector);
    assert(0x0d02u32 & 0x0400 != 0 && 0x0c02u32 & 0x0400 != 0) by (bit_vector);
    assert(0x0d02u32 & 0x0800 != 0 && 0x0c02u32 & 0x0800 != 0) by (bit_vector);
    assert(0x0d02u32 & 0x0100 != 0 && 0x0c02u32 & 0x0100 == 0) by (bit_vector);
    assert(0x0d02u32 & !0x0d02u32 == 0 && 0x0c02u32 & !0x0d02u32 == 0) by (bit_vector);
}

/// Writing is allowed to the owner, to the group and to others, and nothing else
/// changes.
pub proof fn law_writable(mode: u32, m: u32)
    requires
        call_ensures(writable_by_all, (mode,), m),
    ensures
        m & 0o200 == 0o200,
        m & 0o020 == 0o020,
        m & 0o002 == 0o002,
        m & !0o222u32 == mode & !0o222u32,
{
    assert(m == mode | 0o222u32 ==> m & 0o200 == 0o200 && m & 0o020 == 0o020 && m & 0o002 == 0o002
        && m & !0o222u32 == mode & !0o222u32) by (bit_vector);
}

} // verus!
