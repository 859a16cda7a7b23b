//! The decisions of the manager's bridge to the kernel driver: caching the
//! driver information, reading mode flags, feature switches and locating
//! the driver's file descriptor. The driver calls themselves are made by
//! the caller, which hands the replies to these functions.

use vstd::prelude::*;

use crate::text::{parse_i32_range, parse_i32_spec, range_equals, str_chars};

verus! {

/// Feature ID of the `su` compatibility switch.
pub const KSU_FEATURE_SU_COMPAT: u32 = 0;

/// Feature ID of the kernel-side module unmount switch.
pub const KSU_FEATURE_KERNEL_UMOUNT: u32 = 1;

/// Marker in the link target of the driver's anonymous inode.
pub const KSU_DRIVER_MARKER: &'static str = "[ksu_driver]";

/// Driver information: version, mode flags and feature bits.
#[derive(Clone, Copy, Debug, PartialEq, Eq, Structural)]
pub struct KernelInfo {
    pub version: u32,
    pub flags: u32,
    pub features: u32,
}

/// The driver information kept after the first successful query; a zero
/// version means that nothing is kept.
#[derive(Clone, Copy, Debug, PartialEq, Eq, Structural)]
pub struct InfoCache {
    pub version: i32,
    pub flags: i32,
}

impl InfoCache {
    /// A cache that holds nothing.
    pub fn new() -> (r: InfoCache)
        ensures
            r.version == 0,
            r.flags == 0,
    {
        InfoCache { version: 0, flags: 0 }
    }
}

/// The information a cache answers with, if it holds any.
pub open spec fn cached_info_spec(cache: InfoCache) -> Option<KernelInfo> {
    if cache.version != 0 {
        Some(KernelInfo { version: cache.version as u32, flags: cache.flags as u32, features: 0 })
    } else {
        None
    }
}

/// The information kept in the cache, or `None` when the driver must be
/// queried.
pub fn cached_info(cache: &InfoCache) -> (r: Option<KernelInfo>)
    ensures
        r == cached_info_spec(*cache),
{
    if cache.version != 0 {
        Some(KernelInfo { version: cache.version as u32, flags: cache.flags as u32, features: 0 })
    } else {
        None
    }
}

/// Keeps the answer of a driver query when it carries a version.
pub fn remember_info(cache: &mut InfoCache, info: &KernelInfo)
    ensures
        info.version != 0 ==> final(cache).version == info.version as i32 && final(cache).flags
            == info.flags as i32,
        info.version == 0 ==> *final(cache) == *old(cache),
{
    if info.version != 0 {
        cache.version = info.version as i32;
        cache.flags = info.flags as i32;
    }
}

/// Once a query has answered with a version, the cache answers every later
/// request with that version and those flags, so the driver is queried only
/// once.
pub proof fn remembered_info_is_returned(cache: InfoCache, info: KernelInfo, after: InfoCache)
    requires
        info.version != 0,
        after.version == info.version as i32,
        after.flags == info.flags as i32,
    ensures
        cached_info_spec(after) matches Some(i) && i.version == info.version && i.flags
            == info.flags,
{
    let v = info.version;
    let f = info.flags;
    assert(v != 0 ==> (v as i32) != 0) by (bit_vector);
    assert((v as i32) as u32 == v) by (bit_vector);
    assert((f as i32) as u32 == f) by (bit_vector);
}

/// An answer from the driver information, or a request to ask the legacy
/// interface first.
#[derive(Clone, Copy, Debug, PartialEq, Eq, Structural)]
pub enum ModeQuery {
    /// The answer.
    Answer(bool),
    /// The driver did not report a version; the legacy interface decides.
    AskLegacy,
}

/// Whether the kernel support runs as a loadable module: bit 0 of the flags
/// when the driver reports a version.
pub fn is_lkm_mode(info: &KernelInfo) -> (r: ModeQuery)
    ensures
        info.version > 0 ==> r == ModeQuery::Answer(info.flags & 1 != 0),
        info.version == 0 ==> r == ModeQuery::AskLegacy,
{
    if info.version > 0 {
        ModeQuery::Answer((info.flags & 0x1) != 0)
    } else {
        ModeQuery::AskLegacy
    }
}

/// Loadable-module mode from the flags of the legacy interface (bit 0).
pub fn legacy_is_lkm_mode(legacy_flags: i32) -> (r: bool)
    ensures
        r == (legacy_flags & 1 != 0),
{
    (legacy_flags & 0x1) != 0
}

/// Whether the calling app is the manager: bit 1 of the flags when the
/// driver reports a version.
pub fn is_manager(info: &KernelInfo) -> (r: ModeQuery)
    ensures
        info.version > 0 ==> r == ModeQuery::Answer(info.flags & 2 != 0),
        info.version == 0 ==> r == ModeQuery::AskLegacy,
{
    if info.version > 0 {
        ModeQuery::Answer((info.flags & 0x2) != 0)
    } else {
        ModeQuery::AskLegacy
    }
}

/// Manager status from the legacy interface: it reports a positive version
/// only to the manager.
pub fn legacy_is_manager(legacy_version: i32) -> (r: bool)
    ensures
        r == (legacy_version > 0),
{
    legacy_version > 0
}

/// The kernel version that the manager shows: the driver's version when it
/// reports one (`Some`), else `None`, meaning that the legacy interface's
/// version is shown.
pub fn get_version(info: &KernelInfo) -> (r: Option<i32>)
    ensures
        info.version > 0 ==> r == Some(info.version as i32),
        info.version == 0 ==> r is None,
{
    if info.version > 0 {
        Some(info.version as i32)
    } else {
        None
    }
}

/// The reply to a feature query: `None` when the query failed, else the
/// value and whether the kernel supports the feature.
pub fn get_feature_reply(status: i32, value: u64, supported: u8) -> (r: Option<(u64, bool)>)
    ensures
        status != 0 ==> r is None,
        status == 0 ==> r == Some((value, supported != 0)),
{
    if status != 0 {
        return None;
    }
    Some((value, supported != 0))
}

/// A switch is on when the kernel supports it and reports a non-zero value.
pub open spec fn feature_on(reply: Option<(u64, bool)>) -> bool {
    match reply {
        Some((value, true)) => value != 0,
        _ => false,
    }
}

/// Whether `su` compatibility is on, from the reply to a query of
/// [`KSU_FEATURE_SU_COMPAT`].
pub fn is_su_enabled(reply: Option<(u64, bool)>) -> (r: bool)
    ensures
        r == feature_on(reply),
{
    match reply {
        Some((value, true)) => value != 0,
        _ => false,
    }
}

/// Whether kernel-side module unmounting is on, from the reply to a query
/// of [`KSU_FEATURE_KERNEL_UMOUNT`].
pub fn is_kernel_umount_enabled(reply: Option<(u64, bool)>) -> (r: bool)
    ensures
        r == feature_on(reply),
{
    match reply {
        Some((value, true)) => value != 0,
        _ => false,
    }
}

/// A feature switch to send to the kernel.
#[derive(Clone, Copy, Debug, PartialEq, Eq, Structural)]
pub struct FeatureSetting {
    pub feature_id: u32,
    pub value: u64,
}

/// The setting that turns `su` compatibility on or off.
pub fn set_su_enabled(enabled: bool) -> (r: FeatureSetting)
    ensures
        r.feature_id == KSU_FEATURE_SU_COMPAT,
        r.value == if enabled {
            1u64
        } else {
            0u64
        },
{
    FeatureSetting { feature_id: KSU_FEATURE_SU_COMPAT, value: if enabled { 1 } else { 0 } }
}

/// The setting that turns kernel-side module unmounting on or off.
pub fn set_kernel_umount_enabled(enabled: bool) -> (r: FeatureSetting)
    ensures
        r.feature_id == KSU_FEATURE_KERNEL_UMOUNT,
        r.value == if enabled {
            1u64
        } else {
            0u64
        },
{
    FeatureSetting { feature_id: KSU_FEATURE_KERNEL_UMOUNT, value: if enabled { 1 } else { 0 } }
}

/// A reply of a feature query reports the value that was last set, when
/// the kernel supports the feature: setting a switch on and reading it back
/// gives on, setting it off gives off.
pub proof fn feature_set_then_read(enabled: bool, setting: FeatureSetting)
    requires
        setting.value == if enabled {
            1u64
        } else {
            0u64
        },
    ensures
        feature_on(Some((setting.value, true))) == enabled,
{
}

// ---------------------------------------------------------------------------
// Locating the driver
// ---------------------------------------------------------------------------

/// The descriptor number that a `/proc/self/fd` entry name stands for, when
/// it is a non-negative integer.
pub open spec fn fd_candidate_spec(name: Seq<char>) -> Option<i32> {
    match parse_i32_spec(name) {
        Some(n) => if n >= 0 {
            Some(n)
        } else {
            None
        },
        None => None,
    }
}

/// The descriptor number of a `/proc/self/fd` entry, or `None` for an entry
/// that is not a non-negative integer (those are skipped).
pub fn driver_fd_candidate(name: &str) -> (r: Option<i32>)
    ensures
        r == fd_candidate_spec(name@),
{
    let cs = str_chars(name);
    assert(cs@.subrange(0, cs@.len() as int) =~= name@);
    match parse_i32_range(&cs, 0, cs.len()) {
        Some(n) => if n >= 0 {
            Some(n)
        } else {
            None
        },
        None => None,
    }
}

/// `s` contains `pat` at some position.
pub open spec fn contains_at(s: Seq<char>, pat: Seq<char>, i: int) -> bool {
    0 <= i && i + pat.len() <= s.len() && s.subrange(i, i + pat.len()) == pat
}

/// `s` contains `pat`.
pub open spec fn contains_seq(s: Seq<char>, pat: Seq<char>) -> bool {
    exists|i: int| contains_at(s, pat, i)
}

/// Whether a descriptor's link target is the driver's anonymous inode.
pub fn is_driver_link(target: &str) -> (r: bool)
    ensures
        r == contains_seq(target@, KSU_DRIVER_MARKER@),
{
    let cs = str_chars(target);
    let pat = str_chars(KSU_DRIVER_MARKER);
    let n = cs.len();
    let m = pat.len();
    if m > n {
        proof {
            assert forall|i: int| !contains_at(target@, KSU_DRIVER_MARKER@, i) by {}
        }
        return false;
    }
    if m == 0 {
        assert(target@.subrange(0, 0) =~= KSU_DRIVER_MARKER@);
        assert(contains_at(target@, KSU_DRIVER_MARKER@, 0));
        return true;
    }
    let mut i: usize = 0;
    while i <= n - m
        invariant
            1 <= m <= n,
            n == cs@.len(),
            m == pat@.len(),
            cs@ == target@,
            pat@ == KSU_DRIVER_MARKER@,
            forall|j: int| 0 <= j < i ==> !contains_at(target@, KSU_DRIVER_MARKER@, j),
        decreases n - m + 1 - i,
    {
        if range_equals(&cs, i, i + m, &pat) {
            assert(contains_at(target@, KSU_DRIVER_MARKER@, i as int));
            return true;
        }
        i = i + 1;
    }
    proof {
        assert forall|j: int| !contains_at(target@, KSU_DRIVER_MARKER@, j) by {
            if j >= i {
                assert(!(j + m <= n));
            }
        }
    }
    false
}

/// An entry of `/proc/self/fd`: its name and the target of its link, when
/// the link could be read.
#[derive(Clone, Debug)]
pub struct FdEntry {
    pub name: String,
    pub target: Option<String>,
}

/// The abstract content of a list of descriptor entries.
pub open spec fn fd_entries_view(v: Seq<FdEntry>) -> Seq<(Seq<char>, Option<Seq<char>>)> {
    v.map_values(
        |e: FdEntry|
            (
                e.name@,
                match e.target {
                    Some(t) => Some(t@),
                    None => None,
                },
            ),
    )
}

/// The driver descriptor among the entries: the number of the first entry
/// whose name is a non-negative integer and whose link target is the
/// driver's anonymous inode, or -1 when there is none.
pub open spec fn driver_fd_spec(es: Seq<(Seq<char>, Option<Seq<char>>)>) -> i32
    decreases es.len(),
{
    if es.len() == 0 {
        -1i32
    } else {
        match (fd_candidate_spec(es[0].0), es[0].1) {
            (Some(n), Some(t)) => if contains_seq(t, KSU_DRIVER_MARKER@) {
                n
            } else {
                driver_fd_spec(es.drop_first())
            },
            _ => driver_fd_spec(es.drop_first()),
        }
    }
}

/// Finds the driver's descriptor among the entries of `/proc/self/fd`, in
/// the order they were listed; -1 when none is the driver.
pub fn find_driver_fd(entries: &Vec<FdEntry>) -> (r: i32)
    ensures
        r == driver_fd_spec(fd_entries_view(entries@)),
{
    let ghost es = fd_entries_view(entries@);
    let mut i: usize = 0;
    assert(es.subrange(0, es.len() as int) =~= es);
    while i < entries.len()
        invariant
            i <= entries@.len(),
            es == fd_entries_view(entries@),
            driver_fd_spec(es) == driver_fd_spec(es.subrange(i as int, es.len() as int)),
        decreases entries@.len() - i,
    {
        let ghost rest = es.subrange(i as int, es.len() as int);
        assert(rest[0] == es[i as int]);
        assert(rest.drop_first() =~= es.subrange(i + 1, es.len() as int));
        let e = &entries[i];
        match driver_fd_candidate(e.name.as_str()) {
            Some(n) => match &e.target {
                Some(t) => {
                    if is_driver_link(t.as_str()) {
                        return n;
                    }
                },
                None => {},
            },
            None => {},
        }
        i = i + 1;
    }
    -1
}

} // verus!
