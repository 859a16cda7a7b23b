//! Per-app profiles: the kernel's `app_profile` record and its translation
//! to and from the fields of the manager's `Natives.Profile` object.

use vstd::prelude::*;
use vstd::utf8::encode_utf8;

use crate::capabilities::{cap_bits_to_list, cap_list_to_bits, cap_mask, caps_of_mask};
use crate::fixed_str::{
    fixed_text, fixed_to_string, fixed_write, fixed_write_then_read, str_to_fixed, zero_bytes,
};
use crate::text::{byte_len, utf8_len};

verus! {

/// Version of the profile record that this bridge speaks.
pub const KSU_APP_PROFILE_VER: u32 = 2;

/// Size of the package name buffer, terminator included.
pub const KSU_MAX_PACKAGE_NAME: usize = 256;

/// Number of supplementary groups a root profile holds.
pub const KSU_MAX_GROUPS: usize = 32;

/// Size of the SELinux domain buffer, terminator included.
pub const KSU_SELINUX_DOMAIN: usize = 64;

/// Capability sets of a root profile.
#[derive(Clone, Copy, Debug)]
pub struct Capabilities {
    pub effective: u64,
    pub permitted: u64,
    pub inheritable: u64,
}

/// Identity and privileges granted to an app that may use `su`.
#[derive(Clone, Copy, Debug)]
pub struct RootProfile {
    pub uid: i32,
    pub gid: i32,
    pub groups_count: i32,
    pub groups: [i32; 32],
    pub capabilities: Capabilities,
    pub selinux_domain: [u8; 64],
    pub namespaces: i32,
}

/// Settings of an app that may not use `su`.
#[derive(Clone, Copy, Debug)]
pub struct NonRootProfile {
    pub umount_modules: bool,
}

/// The root-profile configuration arm of the profile.
#[derive(Clone, Copy, Debug)]
pub struct RpConfig {
    pub use_default: bool,
    pub template_name: [u8; 256],
    pub profile: RootProfile,
}

/// The non-root-profile configuration arm of the profile.
#[derive(Clone, Copy, Debug)]
pub struct NrpConfig {
    pub use_default: bool,
    pub profile: NonRootProfile,
}

/// The kernel `app_profile` record. The kernel keeps the two configuration
/// arms in one union and reads `rp_config` when `allow_su` holds and
/// `nrp_config` otherwise.
#[derive(Clone, Copy, Debug)]
pub struct AppProfile {
    pub version: u32,
    pub key: [u8; 256],
    pub current_uid: i32,
    pub allow_su: bool,
    pub rp_config: RpConfig,
    pub nrp_config: NrpConfig,
}

/// `n` zero group IDs.
pub open spec fn zero_groups(n: nat) -> Seq<i32> {
    Seq::new(n, |i: int| 0i32)
}

/// A root profile with every field zero.
pub open spec fn is_zero_root_profile(p: RootProfile) -> bool {
    &&& p.uid == 0
    &&& p.gid == 0
    &&& p.groups_count == 0
    &&& p.groups@ == zero_groups(32)
    &&& p.capabilities.effective == 0
    &&& p.capabilities.permitted == 0
    &&& p.capabilities.inheritable == 0
    &&& p.selinux_domain@ == zero_bytes(64)
    &&& p.namespaces == 0
}

/// A root configuration with every field zero.
pub open spec fn is_zero_rp_config(c: RpConfig) -> bool {
    &&& !c.use_default
    &&& c.template_name@ == zero_bytes(256)
    &&& is_zero_root_profile(c.profile)
}

/// A non-root configuration with every field zero.
pub open spec fn is_zero_nrp_config(c: NrpConfig) -> bool {
    !c.use_default && !c.profile.umount_modules
}

/// A profile with every field zero.
pub open spec fn is_zero_app_profile(p: AppProfile) -> bool {
    &&& p.version == 0
    &&& p.key@ == zero_bytes(256)
    &&& p.current_uid == 0
    &&& !p.allow_su
    &&& is_zero_rp_config(p.rp_config)
    &&& is_zero_nrp_config(p.nrp_config)
}

impl RootProfile {
    /// A root profile with every field zero.
    pub fn zeroed() -> (r: RootProfile)
        ensures
            is_zero_root_profile(r),
    {
        let r = RootProfile {
            uid: 0,
            gid: 0,
            groups_count: 0,
            groups: [0i32; 32],
            capabilities: Capabilities { effective: 0, permitted: 0, inheritable: 0 },
            selinux_domain: [0u8; 64],
            namespaces: 0,
        };
        assert(r.groups@ =~= zero_groups(32));
        assert(r.selinux_domain@ =~= zero_bytes(64));
        r
    }
}

impl RpConfig {
    /// A root configuration with every field zero.
    pub fn zeroed() -> (r: RpConfig)
        ensures
            is_zero_rp_config(r),
    {
        let r = RpConfig {
            use_default: false,
            template_name: [0u8; 256],
            profile: RootProfile::zeroed(),
        };
        assert(r.template_name@ =~= zero_bytes(256));
        r
    }
}

impl AppProfile {
    /// A profile with every field zero.
    pub fn zeroed() -> (r: AppProfile)
        ensures
            is_zero_app_profile(r),
    {
        let r = AppProfile {
            version: 0,
            key: [0u8; 256],
            current_uid: 0,
            allow_su: false,
            rp_config: RpConfig::zeroed(),
            nrp_config: NrpConfig {
                use_default: false,
                profile: NonRootProfile { umount_modules: false },
            },
        };
        assert(r.key@ =~= zero_bytes(256));
        r
    }
}

// ---------------------------------------------------------------------------
// Writing a profile
// ---------------------------------------------------------------------------

/// The fields of a manager-side `Natives.Profile` object, as read for
/// writing a profile to the kernel.
#[derive(Clone, Debug)]
pub struct JavaProfile {
    /// Package name (`None` when the Java field is null).
    pub name: Option<String>,
    pub current_uid: i32,
    pub allow_su: bool,
    pub umount_modules: bool,
    pub root_use_default: bool,
    /// Root template name (`None` when the Java field is null).
    pub root_template: Option<String>,
    pub uid: i32,
    pub gid: i32,
    pub groups: Vec<i32>,
    pub capabilities: Vec<i32>,
    pub context: String,
    pub namespace: i32,
    pub non_root_use_default: bool,
}

/// A profile object that cannot be written: no name, a name that does not
/// fit the key buffer, or (for a root profile) more groups than the record
/// holds.
pub open spec fn profile_refused(j: JavaProfile) -> bool {
    ||| j.name is None
    ||| byte_len(j.name->0@) > KSU_MAX_PACKAGE_NAME - 1
    ||| (j.allow_su && j.groups@.len() > KSU_MAX_GROUPS)
}

/// Whether a package name fits the key buffer with its terminator.
pub fn package_name_fits(name: &str) -> (r: bool)
    ensures
        r == (byte_len(name@) <= KSU_MAX_PACKAGE_NAME - 1),
{
    name.len() <= KSU_MAX_PACKAGE_NAME - 1
}

/// Whether a group list of `count` entries (as a Java list reports its
/// size) fits the record.
pub fn group_count_fits(count: i32) -> (r: bool)
    ensures
        r == (0 <= count <= KSU_MAX_GROUPS),
{
    0 <= count && count <= 32
}

/// The root configuration written for a profile object.
pub open spec fn root_config_of(c: RpConfig, j: JavaProfile) -> bool {
    &&& c.use_default == j.root_use_default
    &&& c.template_name@ == match j.root_template {
        Some(t) => fixed_write(zero_bytes(256), encode_utf8(t@)),
        None => zero_bytes(256),
    }
    &&& c.profile.uid == j.uid
    &&& c.profile.gid == j.gid
    &&& c.profile.groups_count == j.groups@.len()
    &&& c.profile.groups@ == j.groups@ + zero_groups((32 - j.groups@.len()) as nat)
    &&& c.profile.capabilities.effective == cap_mask(j.capabilities@)
    &&& c.profile.capabilities.permitted == 0
    &&& c.profile.capabilities.inheritable == 0
    &&& c.profile.selinux_domain@ == fixed_write(zero_bytes(64), encode_utf8(j.context@))
    &&& c.profile.namespaces == j.namespace
}

/// The record written to the kernel for a profile object.
pub open spec fn profile_written(p: AppProfile, j: JavaProfile) -> bool {
    &&& p.version == KSU_APP_PROFILE_VER
    &&& p.key@ == fixed_write(zero_bytes(256), encode_utf8(j.name->0@))
    &&& p.current_uid == j.current_uid
    &&& p.allow_su == j.allow_su
    &&& if j.allow_su {
        &&& root_config_of(p.rp_config, j)
        &&& is_zero_nrp_config(p.nrp_config)
    } else {
        &&& is_zero_rp_config(p.rp_config)
        &&& p.nrp_config.use_default == j.non_root_use_default
        &&& p.nrp_config.profile.umount_modules == j.umount_modules
    }
}

/// Builds the root configuration of a profile object whose group list fits.
fn build_root_config(j: &JavaProfile) -> (c: RpConfig)
    requires
        j.groups@.len() <= KSU_MAX_GROUPS,
    ensures
        root_config_of(c, *j),
{
    let mut template_name = [0u8; 256];
    assert(template_name@ =~= zero_bytes(256));
    match &j.root_template {
        Some(t) => str_to_fixed(&mut template_name, t.as_str()),
        None => {},
    }
    let n = j.groups.len();
    let mut groups = [0i32; 32];
    let mut i: usize = 0;
    while i < n
        invariant
            n == j.groups@.len(),
            n <= 32,
            i <= n,
            groups@.len() == 32,
            forall|k: int| 0 <= k < i ==> groups@[k] == j.groups@[k],
            forall|k: int| i <= k < 32 ==> groups@[k] == 0,
        decreases n - i,
    {
        groups[i] = j.groups[i];
        i = i + 1;
    }
    assert(groups@ =~= j.groups@ + zero_groups((32 - n) as nat));
    let mut selinux_domain = [0u8; 64];
    assert(selinux_domain@ =~= zero_bytes(64));
    str_to_fixed(&mut selinux_domain, j.context.as_str());
    RpConfig {
        use_default: j.root_use_default,
        template_name,
        profile: RootProfile {
            uid: j.uid,
            gid: j.gid,
            groups_count: n as i32,
            groups,
            capabilities: Capabilities {
                effective: cap_list_to_bits(&j.capabilities),
                permitted: 0,
                inheritable: 0,
            },
            selinux_domain,
            namespaces: j.namespace,
        },
    }
}

/// The kernel record for a `Natives.Profile` object, or `None` when the
/// object cannot be written (see [`profile_refused`]).
pub fn build_app_profile(j: &JavaProfile) -> (r: Option<AppProfile>)
    ensures
        r is None <==> profile_refused(*j),
        r matches Some(p) ==> profile_written(p, *j),
{
    let name = match &j.name {
        None => {
            return None;
        },
        Some(n) => n,
    };
    if !package_name_fits(name.as_str()) {
        return None;
    }
    if j.allow_su && j.groups.len() > KSU_MAX_GROUPS {
        return None;
    }
    let mut key = [0u8; 256];
    assert(key@ =~= zero_bytes(256));
    str_to_fixed(&mut key, name.as_str());
    if j.allow_su {
        let rp_config = build_root_config(j);
        Some(
            AppProfile {
                version: KSU_APP_PROFILE_VER,
                key,
                current_uid: j.current_uid,
                allow_su: true,
                rp_config,
                nrp_config: NrpConfig {
                    use_default: false,
                    profile: NonRootProfile { umount_modules: false },
                },
            },
        )
    } else {
        Some(
            AppProfile {
                version: KSU_APP_PROFILE_VER,
                key,
                current_uid: j.current_uid,
                allow_su: false,
                rp_config: RpConfig::zeroed(),
                nrp_config: NrpConfig {
                    use_default: j.non_root_use_default,
                    profile: NonRootProfile { umount_modules: j.umount_modules },
                },
            },
        )
    }
}

// ---------------------------------------------------------------------------
// Reading a profile
// ---------------------------------------------------------------------------

/// The request record for reading the profile of a package and UID, or
/// `None` when the package name does not fit the key buffer.
pub fn profile_request(pkg: &str, uid: i32) -> (r: Option<AppProfile>)
    ensures
        r is None <==> byte_len(pkg@) > KSU_MAX_PACKAGE_NAME - 1,
        r matches Some(p) ==> {
            &&& p.version == KSU_APP_PROFILE_VER
            &&& p.key@ == fixed_write(zero_bytes(256), encode_utf8(pkg@))
            &&& p.current_uid == uid
            &&& !p.allow_su
            &&& is_zero_rp_config(p.rp_config)
            &&& is_zero_nrp_config(p.nrp_config)
        },
{
    if pkg.len() > KSU_MAX_PACKAGE_NAME - 1 {
        return None;
    }
    let mut p = AppProfile::zeroed();
    p.version = KSU_APP_PROFILE_VER;
    p.current_uid = uid;
    let mut key = [0u8; 256];
    assert(key@ =~= zero_bytes(256));
    str_to_fixed(&mut key, pkg);
    p.key = key;
    Some(p)
}

/// What the manager is told of a profile read from the kernel: the fields
/// of its `Natives.Profile` object that are set.
#[derive(Clone, Debug)]
pub enum ProfileReading {
    /// No profile is stored: the defaults apply (no root, non-root use
    /// default).
    Default { name: String, current_uid: i32 },
    /// A profile that grants root.
    Root {
        name: String,
        current_uid: i32,
        use_default: bool,
        /// The template name, when it is not empty.
        template: Option<String>,
        uid: i32,
        gid: i32,
        groups: Vec<i32>,
        capabilities: Vec<i32>,
        context: String,
        namespace: i32,
    },
    /// A profile that does not grant root.
    NonRoot { name: String, current_uid: i32, use_default: bool, umount_modules: bool },
}

/// The abstract content of a [`ProfileReading`].
pub ghost enum ReadingView {
    Default { name: Seq<char>, current_uid: i32 },
    Root {
        name: Seq<char>,
        current_uid: i32,
        use_default: bool,
        template: Option<Seq<char>>,
        uid: i32,
        gid: i32,
        groups: Seq<i32>,
        capabilities: Seq<i32>,
        context: Seq<char>,
        namespace: i32,
    },
    NonRoot { name: Seq<char>, current_uid: i32, use_default: bool, umount_modules: bool },
}

impl View for ProfileReading {
    type V = ReadingView;

    open spec fn view(&self) -> ReadingView {
        match self {
            ProfileReading::Default { name, current_uid } => ReadingView::Default {
                name: name@,
                current_uid: *current_uid,
            },
            ProfileReading::Root {
                name,
                current_uid,
                use_default,
                template,
                uid,
                gid,
                groups,
                capabilities,
                context,
                namespace,
            } => ReadingView::Root {
                name: name@,
                current_uid: *current_uid,
                use_default: *use_default,
                template: match template {
                    Some(t) => Some(t@),
                    None => None,
                },
                uid: *uid,
                gid: *gid,
                groups: groups@,
                capabilities: capabilities@,
                context: context@,
                namespace: *namespace,
            },
            ProfileReading::NonRoot { name, current_uid, use_default, umount_modules } =>
                ReadingView::NonRoot {
                name: name@,
                current_uid: *current_uid,
                use_default: *use_default,
                umount_modules: *umount_modules,
            },
        }
    }
}

/// How many of the stored groups are shown: the stored count, clamped to
/// `0..=KSU_MAX_GROUPS`.
pub open spec fn shown_group_count(groups_count: i32) -> int {
    if groups_count < 0 {
        0
    } else if groups_count > KSU_MAX_GROUPS {
        KSU_MAX_GROUPS as int
    } else {
        groups_count as int
    }
}

/// What the manager is told of the record `p`; `use_default` says that the
/// kernel has no profile stored and answered with the defaults.
pub open spec fn reading_spec(p: AppProfile, use_default: bool) -> ReadingView {
    let name = fixed_text(p.key@);
    if use_default {
        ReadingView::Default { name, current_uid: p.current_uid }
    } else if p.allow_su {
        let rp = p.rp_config;
        let t = fixed_text(rp.template_name@);
        ReadingView::Root {
            name,
            current_uid: p.current_uid,
            use_default: rp.use_default,
            template: if t.len() > 0 {
                Some(t)
            } else {
                None
            },
            uid: rp.profile.uid,
            gid: rp.profile.gid,
            groups: rp.profile.groups@.take(shown_group_count(rp.profile.groups_count)),
            capabilities: caps_of_mask(rp.profile.capabilities.effective),
            context: fixed_text(rp.profile.selinux_domain@),
            namespace: rp.profile.namespaces,
        }
    } else {
        ReadingView::NonRoot {
            name,
            current_uid: p.current_uid,
            use_default: p.nrp_config.use_default,
            umount_modules: p.nrp_config.profile.umount_modules,
        }
    }
}

/// What the manager is told of a profile record read back from the kernel;
/// `use_default` says that the kernel has no profile stored.
pub fn profile_reading(p: &AppProfile, use_default: bool) -> (r: ProfileReading)
    ensures
        r@ == reading_spec(*p, use_default),
{
    let name = fixed_to_string(&p.key);
    if use_default {
        return ProfileReading::Default { name, current_uid: p.current_uid };
    }
    if p.allow_su {
        let template_text = fixed_to_string(&p.rp_config.template_name);
        let template = if template_text.as_str().is_empty() {
            None
        } else {
            Some(template_text)
        };
        let gc = p.rp_config.profile.groups_count;
        let count: usize = if gc < 0 {
            0
        } else if gc > 32 {
            32
        } else {
            gc as usize
        };
        let mut groups: Vec<i32> = Vec::new();
        let mut i: usize = 0;
        while i < count
            invariant
                count <= 32,
                count == shown_group_count(gc),
                gc == p.rp_config.profile.groups_count,
                i <= count,
                groups@ == p.rp_config.profile.groups@.take(i as int),
            decreases count - i,
        {
            groups.push(p.rp_config.profile.groups[i]);
            i = i + 1;
            assert(groups@ =~= p.rp_config.profile.groups@.take(i as int));
        }
        let capabilities = cap_bits_to_list(p.rp_config.profile.capabilities.effective);
        let context = fixed_to_string(&p.rp_config.profile.selinux_domain);
        let r = ProfileReading::Root {
            name,
            current_uid: p.current_uid,
            use_default: p.rp_config.use_default,
            template,
            uid: p.rp_config.profile.uid,
            gid: p.rp_config.profile.gid,
            groups,
            capabilities,
            context,
            namespace: p.rp_config.profile.namespaces,
        };
        r
    } else {
        ProfileReading::NonRoot {
            name,
            current_uid: p.current_uid,
            use_default: p.nrp_config.use_default,
            umount_modules: p.nrp_config.profile.umount_modules,
        }
    }
}

/// A text that a fixed buffer of `n` bytes holds without loss: no NUL
/// character and an encoding shorter than the buffer.
pub open spec fn fits_fixed(s: Seq<char>, n: nat) -> bool {
    &&& utf8_len(s) < n
    &&& forall|i: int| 0 <= i < s.len() ==> s[i] != '\0'
}

/// What the manager reads back of a profile it wrote: the same name, UID
/// and settings; for a root profile the same groups, the capability list
/// of the written capabilities (see `mask_then_list`), the template when it
/// was given and not empty, and the SELinux context.
pub open spec fn read_back_of(j: JavaProfile) -> ReadingView {
    if j.allow_su {
        ReadingView::Root {
            name: j.name->0@,
            current_uid: j.current_uid,
            use_default: j.root_use_default,
            template: match j.root_template {
                Some(t) => if t@.len() > 0 {
                    Some(t@)
                } else {
                    None
                },
                None => None,
            },
            uid: j.uid,
            gid: j.gid,
            groups: j.groups@,
            capabilities: caps_of_mask(cap_mask(j.capabilities@)),
            context: j.context@,
            namespace: j.namespace,
        }
    } else {
        ReadingView::NonRoot {
            name: j.name->0@,
            current_uid: j.current_uid,
            use_default: j.non_root_use_default,
            umount_modules: j.umount_modules,
        }
    }
}

/// A profile written to the kernel and read back unchanged shows the
/// manager what it wrote, provided that its texts fit their buffers without
/// loss (no NUL, short enough).
pub proof fn profile_write_then_read(j: JavaProfile, p: AppProfile)
    requires
        profile_written(p, j),
        j.name is Some,
        fits_fixed(j.name->0@, 256),
        j.allow_su ==> j.groups@.len() <= KSU_MAX_GROUPS,
        j.allow_su ==> fits_fixed(j.context@, 64),
        j.allow_su ==> (j.root_template matches Some(t) ==> fits_fixed(t@, 256)),
    ensures
        reading_spec(p, false) == read_back_of(j),
{
    fixed_write_then_read(zero_bytes(256), j.name->0@);
    if j.allow_su {
        fixed_write_then_read(zero_bytes(64), j.context@);
        let rp = p.rp_config;
        match j.root_template {
            Some(t) => {
                fixed_write_then_read(zero_bytes(256), t@);
            },
            None => {
                lemma_zero_buffer_text(256);
            },
        }
        assert(shown_group_count(rp.profile.groups_count) == j.groups@.len());
        assert(rp.profile.groups@.take(j.groups@.len() as int) =~= j.groups@);
    }
}

/// A buffer of zeros reads as the empty text.
proof fn lemma_zero_buffer_text(n: nat)
    requires
        n >= 1,
    ensures
        fixed_text(zero_bytes(n)).len() == 0,
{
    let z = zero_bytes(n);
    assert(crate::fixed_str::c_str_len(z) == 0);
    assert(crate::fixed_str::c_str_bytes(z) =~= Seq::<u8>::empty());
    assert(vstd::utf8::valid_utf8(Seq::<u8>::empty()));
    assert(vstd::utf8::decode_utf8(Seq::<u8>::empty()) =~= Seq::<char>::empty());
}

} // verus!
