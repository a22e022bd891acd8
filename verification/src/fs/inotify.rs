//! File system notifications, as the kernel's inotify interface delivers them.

use vstd::prelude::*;

use nix::errno::Errno;
use nix::sys::inotify::AddWatchFlags;

verus! {

/// The flag for a watched file that was modified.
pub const MODIFY: u32 = 0x0002;

/// The flag for an entry of a watched directory that was renamed away.
pub const MOVED_FROM: u32 = 0x0040;

/// The flag for an entry of a watched directory that was deleted.
pub const DELETE: u32 = 0x0200;

/// The flag for a watched file whose file system was unmounted.
pub const UNMOUNT: u32 = 0x2000;

/// The flag for notifications that were lost because the queue was full.
pub const QUEUE_OVERFLOW: u32 = 0x4000;

/// The flag for a watch that was removed.
pub const IGNORED: u32 = 0x8000;

/// The flags of a notification that matter here, as masks of one bit each.
pub(crate) struct WatchFlags {
    pub modify: u32,
    pub moved_from: u32,
    pub delete: u32,
    pub unmount: u32,
    pub queue_overflow: u32,
    pub ignored: u32,
}

/// One notification: the watch that it belongs to, what happened, and the name of the directory
/// entry that it happened to, where it is about an entry of a watched directory.
#[derive(Debug, PartialEq, Eq)]
pub struct WatchEvent {
    pub wd: i32,
    pub mask: u32,
    pub name: Option<Vec<u8>>,
}

/// A [`WatchEvent`] with its name as a sequence of bytes.
pub struct WatchEventView {
    pub wd: i32,
    pub mask: u32,
    pub name: Option<Seq<u8>>,
}

impl View for WatchEvent {
    type V = WatchEventView;

    open spec fn view(&self) -> WatchEventView {
        WatchEventView {
            wd: self.wd,
            mask: self.mask,
            name: match self.name {
                Some(n) => Some(n@),
                None => None,
            },
        }
    }
}

/// Two masks share a flag.
pub open spec fn meets(mask: u32, flags: u32) -> bool {
    mask & flags != 0
}

/// The mask for the watch on the directory that holds the control group: the entries that leave
/// it.
pub open spec fn removal_mask() -> u32 {
    DELETE | MOVED_FROM
}

/// The notifications after which a watch is of no use any more.
pub open spec fn lost_mask() -> u32 {
    IGNORED | UNMOUNT
}

/// The bits of the constants `IN_MODIFY`, `IN_MOVED_FROM`, `IN_DELETE`, `IN_UNMOUNT`,
/// `IN_Q_OVERFLOW` and `IN_IGNORED` of `AddWatchFlags` of `nix`. They are the ones that Linux
/// gives these flags.
#[verifier::external_body]
pub(crate) fn watch_flags() -> (r: WatchFlags)
    ensures
        r.modify == MODIFY,
        r.moved_from == MOVED_FROM,
        r.delete == DELETE,
        r.unmount == UNMOUNT,
        r.queue_overflow == QUEUE_OVERFLOW,
        r.ignored == IGNORED,
{
    WatchFlags {
        modify: AddWatchFlags::IN_MODIFY.bits(),
        moved_from: AddWatchFlags::IN_MOVED_FROM.bits(),
        delete: AddWatchFlags::IN_DELETE.bits(),
        unmount: AddWatchFlags::IN_UNMOUNT.bits(),
        queue_overflow: AddWatchFlags::IN_Q_OVERFLOW.bits(),
        ignored: AddWatchFlags::IN_IGNORED.bits(),
    }
}

/// `AddWatchFlags::intersects` of `nix`: whether any bit is set in both masks.
#[verifier::external_body]
pub(crate) fn intersects(mask: u32, flags: u32) -> (r: bool)
    ensures
        r == meets(mask, flags),
{
    AddWatchFlags::from_bits_retain(mask).intersects(AddWatchFlags::from_bits_retain(flags))
}

/// The error number of a system call that a signal interrupted.
pub open spec fn is_interrupt(errno: i32) -> bool {
    errno == 4
}

/// `Errno::from_raw` of `nix`, compared with `Errno::EINTR`, which Linux numbers 4: no other
/// error number is taken for it.
#[verifier::external_body]
pub(crate) fn interrupted(errno: i32) -> (r: bool)
    ensures
        r == is_interrupt(errno),
{
    Errno::from_raw(errno) == Errno::EINTR
}

/// The masks are made of the flags that Linux numbers so, and a notification meets a mask exactly
/// if it has one of the mask's flags.
pub proof fn law_masks(mask: u32)
    ensures
        removal_mask() == 0x240,
        meets(mask, MODIFY) <==> mask & 0x2 != 0,
        meets(mask, QUEUE_OVERFLOW) <==> mask & 0x4000 != 0,
        meets(mask, removal_mask()) <==> mask & 0x200 != 0 || mask & 0x40 != 0,
        meets(mask, lost_mask()) <==> mask & 0x8000 != 0 || mask & 0x2000 != 0,
{
    assert(0x200u32 | 0x40u32 == 0x240u32) by (bit_vector);
    assert(mask & (0x200u32 | 0x40u32) != 0 <==> mask & 0x200 != 0 || mask & 0x40 != 0)
        by (bit_vector);
    assert(mask & (0x8000u32 | 0x2000u32) != 0 <==> mask & 0x8000 != 0 || mask & 0x2000 != 0)
        by (bit_vector);
}

/// One error number is that of an interrupted call, and no other.
pub proof fn law_interrupt(errno: i32)
    ensures
        is_interrupt(errno) <==> errno == 4,
{
}

/// A view shows all of a notification.
pub proof fn law_notification_is_shown_whole(wd: i32, mask: u32, name: Vec<u8>)
    ensures
        (WatchEvent { wd, mask, name: Some(name) })@ == (WatchEventView {
            wd,
            mask,
            name: Some(name@),
        }),
        (WatchEvent { wd, mask, name: None })@ == (WatchEventView { wd, mask, name: None }),
{
}

} // verus!
