//! The key pair that identifies this device, and the devices that are trusted.
use crate::digest;
use crate::error::{AppError, AppResult};
use crate::ids::Uuid;
use crate::text;
use vstd::prelude::*;

verus! {

/// The handshake pattern and primitives in the notation of the Noise framework.
pub const NOISE_PATTERN: &'static str = "Noise_XX_25519_ChaChaPoly_SHA256";

/// The number of bytes in each half of a key pair.
pub const KEY_LENGTH: usize = 32;

/// Parsed parameters of a Noise handshake.
#[verifier::external_type_specification]
#[verifier::external_body]
pub struct ExNoiseParams(snow::params::NoiseParams);

/// The key pair as it is kept on disk.
#[derive(Clone, Debug)]
pub struct StoredIdentity {
    pub private_key: Vec<u8>,
    pub public_key: Vec<u8>,
}

/// The key pair of this device.
#[derive(Clone, Debug)]
pub struct DeviceIdentity {
    pub private_key: Vec<u8>,
    pub public_key: Vec<u8>,
}

impl DeviceIdentity {
    /// The digest by which users compare public keys.
    pub fn fingerprint(&self) -> (r: String)
        ensures
            r@ == digest::digest_text(self.public_key@),
            r@.len() == 64,
    {
        fingerprint(self.public_key.as_slice())
    }
}

/// A device with which this one has been paired.
#[derive(Clone, Debug)]
pub struct TrustedDevice {
    pub device_id: Uuid,
    pub name: String,
    pub public_key: Vec<u8>,
    pub fingerprint: String,
    pub created_at: u64,
    pub last_seen_at: u64,
}

/// The digest of a public key, in 64 hexadecimal digits.
pub fn fingerprint(public_key: &[u8]) -> (r: String)
    ensures
        r@ == digest::digest_text(public_key@),
        r@.len() == 64,
{
    digest::hash_bytes(public_key)
}

/// A reading of the system's clock.
#[verifier::external_type_specification]
#[verifier::external_body]
pub struct ExSystemTime(std::time::SystemTime);

/// The time from the Unix epoch to a reading, as `SystemTime::duration_since` gives it.
pub uninterp spec fn since_epoch(reading: std::time::SystemTime) -> Option<std::time::Duration>;

/// The whole seconds of a time, as `Duration::as_secs` gives them.
pub uninterp spec fn seconds_in(time: std::time::Duration) -> u64;

/// `SystemTime::now`. The time is not a function of anything, so nothing is said of it.
#[verifier::external_body]
fn read_clock() -> (r: std::time::SystemTime) {
    std::time::SystemTime::now()
}

/// `SystemTime::duration_since` from the Unix epoch: a function of the reading, nothing where that
/// stands before the epoch.
#[verifier::external_body]
fn time_since_epoch(reading: std::time::SystemTime) -> (r: Option<std::time::Duration>)
    ensures
        r == since_epoch(reading),
{
    reading.duration_since(std::time::UNIX_EPOCH).ok()
}

/// `Duration::as_secs`: a function of the time.
#[verifier::external_body]
fn whole_seconds(time: std::time::Duration) -> (r: u64)
    ensures
        r == seconds_in(time),
{
    time.as_secs()
}

/// The whole seconds from the Unix epoch to a reading of the clock, nothing where that stands
/// before the epoch.
fn unix_time(reading: std::time::SystemTime) -> (r: Option<u64>)
    ensures
        match since_epoch(reading) {
            Some(time) => r == Some(seconds_in(time)),
            None => r is None,
        },
{
    match time_since_epoch(reading) {
        Some(time) => Some(whole_seconds(time)),
        None => None,
    }
}

/// The seconds since the Unix epoch that a clock reading stands for: none before the epoch.
pub fn seconds_since_epoch(reading: Option<u64>) -> (r: u64)
    ensures
        r == match reading {
            Some(seconds) => seconds,
            None => 0,
        },
{
    match reading {
        Some(seconds) => seconds,
        None => 0,
    }
}

/// The seconds since the Unix epoch by a reading of the system's clock, none where that stands
/// before the epoch.
pub fn now_unix_seconds() -> (r: u64)
    ensures
        exists|reading: std::time::SystemTime|
            r == match #[trigger] since_epoch(reading) {
                Some(time) => seconds_in(time),
                None => 0,
            },
{
    let reading = read_clock();
    let r: u64 = seconds_since_epoch(unix_time(reading));
    proof {
        assert(r == match since_epoch(reading) {
            Some(time) => seconds_in(time),
            None => 0,
        });
    }
    r
}

/// Both halves of a key pair have the length that the key exchange asks for.
pub open spec fn key_lengths_valid(private_key: Seq<u8>, public_key: Seq<u8>) -> bool {
    private_key.len() == KEY_LENGTH && public_key.len() == KEY_LENGTH
}

/// Refuses a key pair of which a half has the wrong length.
pub fn validate_identity(identity: &StoredIdentity) -> (r: AppResult<()>)
    ensures
        r is Ok <==> key_lengths_valid(identity.private_key@, identity.public_key@),
        r matches Err(e) ==> e.is_security(
            "设备身份密钥长度无效，请恢复原身份文件或重新安装后配对"@,
        ),
{
    if identity.private_key.len() != KEY_LENGTH || identity.public_key.len() != KEY_LENGTH {
        return Err(
            AppError::security("设备身份密钥长度无效，请恢复原身份文件或重新安装后配对"),
        );
    }
    Ok(())
}

/// The identity that a stored key pair gives.
pub fn restore_identity(stored: StoredIdentity) -> (r: AppResult<DeviceIdentity>)
    ensures
        r is Ok <==> key_lengths_valid(stored.private_key@, stored.public_key@),
        match r {
            Ok(identity) => identity.private_key == stored.private_key && identity.public_key
                == stored.public_key,
            Err(e) => e.is_security(
                "设备身份密钥长度无效，请恢复原身份文件或重新安装后配对"@,
            ),
        },
{
    match validate_identity(&stored) {
        Ok(()) => Ok(
            DeviceIdentity { private_key: stored.private_key, public_key: stored.public_key },
        ),
        Err(e) => Err(e),
    }
}

/// The number of messages in a handshake with these parameters.
pub uninterp spec fn pattern_messages(params: snow::params::NoiseParams) -> nat;

/// A handshake with these parameters can be built from the private key of this side alone: its
/// pattern asks for no key of the other side and for no shared one beforehand, and its primitives
/// are there.
pub uninterp spec fn needs_own_key_only(params: snow::params::NoiseParams) -> bool;

/// The key exchange of these parameters is that on Curve25519.
pub uninterp spec fn uses_curve25519(params: snow::params::NoiseParams) -> bool;

/// The public half that belongs to a private half on Curve25519.
pub uninterp spec fn public_half(private_key: Seq<u8>) -> Seq<u8>;

/// `NoiseParams::from_str`: the pattern of this project is accepted. Of its parameters it is said
/// that a handshake with them has three messages, as the pattern XX has, that it can be built from
/// the private key of this side alone, and that its key exchange is that on Curve25519. An error
/// comes as its text.
#[verifier::external_body]
fn parse_params(pattern: &str) -> (r: Result<snow::params::NoiseParams, String>)
    ensures
        pattern@ == NOISE_PATTERN@ ==> r is Ok && pattern_messages(r->Ok_0) == 3
            && needs_own_key_only(r->Ok_0) && uses_curve25519(r->Ok_0),
{
    pattern.parse::<snow::params::NoiseParams>().map_err(|e| format!("{e}"))
}

/// The parameters of this project's handshake.
pub(crate) fn noise_params() -> (r: Result<snow::params::NoiseParams, String>)
    ensures
        r is Ok,
        pattern_messages(r->Ok_0) == 3,
        needs_own_key_only(r->Ok_0),
        uses_curve25519(r->Ok_0),
{
    parse_params(NOISE_PATTERN)
}

/// `Builder::generate_keypair`: the private and the public half. On Curve25519 both have 32 bytes,
/// and the public half is a function of the private one. They rest on chance, as does success, so
/// no more is said of them; an error comes as its text.
#[verifier::external_body]
fn generate_keypair(params: snow::params::NoiseParams) -> (r: Result<(Vec<u8>, Vec<u8>), String>)
    ensures
        uses_curve25519(params) ==> (r matches Ok(pair) ==> pair.0@.len() == KEY_LENGTH
            && pair.1@.len() == KEY_LENGTH && pair.1@ == public_half(pair.0@)),
{
    let pair = snow::Builder::new(params).generate_keypair().map_err(|e| format!("{e}"))?;
    Ok((pair.private, pair.public))
}

/// The identity that a generated key pair gives, or the error that its generation ended in.
pub fn identity_from_keypair(generated: Result<(Vec<u8>, Vec<u8>), String>) -> (r: AppResult<
    DeviceIdentity,
>)
    ensures
        match generated {
            Err(cause) => r matches Err(e) && e.is_security(
                "无法生成设备身份密钥："@ + cause@,
            ),
            Ok((private_key, public_key)) => if key_lengths_valid(private_key@, public_key@) {
                r matches Ok(identity) && identity.private_key == private_key
                    && identity.public_key == public_key
            } else {
                r matches Err(e) && e.is_security(
                    "设备身份密钥长度无效，请恢复原身份文件或重新安装后配对"@,
                )
            },
        },
{
    match generated {
        Err(cause) => Err(
            AppError::Security(text::joined("无法生成设备身份密钥：", &cause)),
        ),
        Ok((private_key, public_key)) => restore_identity(
            StoredIdentity { private_key, public_key },
        ),
    }
}

/// A new identity with a key pair of its own.
pub fn create_identity() -> (r: AppResult<DeviceIdentity>)
    ensures
        match r {
            Ok(identity) => key_lengths_valid(identity.private_key@, identity.public_key@)
                && identity.public_key@ == public_half(identity.private_key@),
            Err(e) => e is Security,
        },
{
    match noise_params() {
        Err(cause) => Err(AppError::Security(text::joined("Noise 参数无效：", &cause))),
        Ok(params) => identity_from_keypair(generate_keypair(params)),
    }
}

/// What `suffix` and a fresh identifier make of a file's name for a file beside it.
pub open spec fn sibling_name_of(file_name: Option<Seq<char>>, id: u128, suffix: Seq<char>) -> Seq<
    char,
> {
    let base = match file_name {
        Some(name) => name,
        None => "identity"@,
    };
    base + "."@ + crate::ids::hyphenated(id) + suffix
}

/// The name of a file beside the one with this name, marked by a fresh identifier.
pub fn sibling_name(file_name: Option<&str>, id: Uuid, suffix: &str) -> (r: String)
    ensures
        r@ == sibling_name_of(
            match file_name {
                Some(name) => Some(name@),
                None => None,
            },
            id.value,
            suffix@,
        ),
{
    let base = match file_name {
        Some(name) => name,
        None => "identity",
    };
    let mut out = text::joined(base, ".");
    let mark = id.to_string();
    out.append(&mark);
    out.append(suffix);
    out
}

/// What is next when a file is to be replaced so that its old content is not lost.
#[derive(Debug)]
pub enum WritePhase {
    /// The directory is to be made.
    CreateParent,
    /// The new content is to be written to a file beside the target.
    WriteTemporary,
    /// That file is to become the target, of which there is none.
    Publish,
    /// The target is to be moved aside.
    BackUp,
    /// The new file is to become the target, which has been moved aside.
    Replace,
    /// The target is to be moved back, after this error.
    Restore(String),
    /// The new file is to be removed, after this error.
    Discard(AppError),
    /// What has been moved aside is to be removed.
    RemoveBackup,
    /// There is nothing left to do.
    Done(AppResult<()>),
}

/// Begins to replace a file.
pub fn begin_write(has_parent: bool) -> (r: WritePhase)
    ensures
        if has_parent {
            r is CreateParent
        } else {
            r is WriteTemporary
        },
{
    if has_parent {
        WritePhase::CreateParent
    } else {
        WritePhase::WriteTemporary
    }
}

/// What follows on a phase that has had this outcome.
pub open spec fn follows(
    phase: WritePhase,
    outcome: Result<(), String>,
    target_exists: bool,
    backup_place: Seq<char>,
    next: WritePhase,
) -> bool {
    match phase {
        WritePhase::CreateParent => match outcome {
            Ok(()) => next is WriteTemporary,
            Err(cause) => next == WritePhase::Done(Err(AppError::Io(cause))),
        },
        WritePhase::WriteTemporary => match outcome {
            Ok(()) => if target_exists {
                next is BackUp
            } else {
                next is Publish
            },
            Err(cause) => next == WritePhase::Done(Err(AppError::Io(cause))),
        },
        WritePhase::Publish => match outcome {
            Ok(()) => next == WritePhase::Done(Ok(())),
            Err(cause) => next == WritePhase::Discard(AppError::Io(cause)),
        },
        WritePhase::BackUp => match outcome {
            Ok(()) => next is Replace,
            Err(cause) => next == WritePhase::Done(Err(AppError::Io(cause))),
        },
        WritePhase::Replace => match outcome {
            Ok(()) => next is RemoveBackup,
            Err(cause) => next == WritePhase::Restore(cause),
        },
        WritePhase::Restore(first) => match outcome {
            Ok(()) => next == WritePhase::Discard(AppError::Io(first)),
            Err(cause) => next matches WritePhase::Discard(e) && e.is_security(
                "更新身份数据失败，旧数据保留在 "@ + backup_place + "，自动恢复也失败："@
                    + cause@,
            ),
        },
        WritePhase::Discard(error) => next == WritePhase::Done(Err(error)),
        WritePhase::RemoveBackup => match outcome {
            Ok(()) => next == WritePhase::Done(Ok(())),
            Err(cause) => next == WritePhase::Done(Err(AppError::Io(cause))),
        },
        WritePhase::Done(result) => next == WritePhase::Done(result),
    }
}

/// What follows on a phase that has had this outcome.
pub fn next_write(
    phase: WritePhase,
    outcome: Result<(), String>,
    target_exists: bool,
    backup_place: &str,
) -> (r: WritePhase)
    ensures
        follows(phase, outcome, target_exists, backup_place@, r),
{
    match phase {
        WritePhase::CreateParent => match outcome {
            Ok(()) => WritePhase::WriteTemporary,
            Err(cause) => WritePhase::Done(Err(AppError::Io(cause))),
        },
        WritePhase::WriteTemporary => match outcome {
            Ok(()) => {
                if target_exists {
                    WritePhase::BackUp
                } else {
                    WritePhase::Publish
                }
            },
            Err(cause) => WritePhase::Done(Err(AppError::Io(cause))),
        },
        WritePhase::Publish => match outcome {
            Ok(()) => WritePhase::Done(Ok(())),
            Err(cause) => WritePhase::Discard(AppError::Io(cause)),
        },
        WritePhase::BackUp => match outcome {
            Ok(()) => WritePhase::Replace,
            Err(cause) => WritePhase::Done(Err(AppError::Io(cause))),
        },
        WritePhase::Replace => match outcome {
            Ok(()) => WritePhase::RemoveBackup,
            Err(cause) => WritePhase::Restore(cause),
        },
        WritePhase::Restore(first) => match outcome {
            Ok(()) => WritePhase::Discard(AppError::Io(first)),
            Err(cause) => {
                let mut detail = text::joined3(
                    "更新身份数据失败，旧数据保留在 ",
                    backup_place,
                    "，自动恢复也失败：",
                );
                detail.append(&cause);
                WritePhase::Discard(AppError::Security(detail))
            },
        },
        WritePhase::Discard(error) => WritePhase::Done(Err(error)),
        WritePhase::RemoveBackup => match outcome {
            Ok(()) => WritePhase::Done(Ok(())),
            Err(cause) => WritePhase::Done(Err(AppError::Io(cause))),
        },
        WritePhase::Done(result) => WritePhase::Done(result),
    }
}

/// The files at the target, beside it, and where it has been moved aside.
pub struct WriteFiles {
    pub target: Option<Seq<u8>>,
    pub temporary: Option<Seq<u8>>,
    pub backup: Option<Seq<u8>>,
}

/// What a phase does to the files. Where it fails, the target and what has been moved aside are
/// as they were.
pub open spec fn performs(
    phase: WritePhase,
    content: Seq<u8>,
    succeeded: bool,
    before: WriteFiles,
    after: WriteFiles,
) -> bool {
    if !succeeded {
        after.target == before.target && after.backup == before.backup
    } else {
        match phase {
            WritePhase::WriteTemporary => after == (WriteFiles {
                temporary: Some(content),
                ..before
            }),
            WritePhase::Publish | WritePhase::Replace => after == (WriteFiles {
                target: before.temporary,
                temporary: None,
                ..before
            }),
            WritePhase::BackUp => after == (WriteFiles {
                backup: before.target,
                target: None,
                ..before
            }),
            WritePhase::Restore(_) => after == (WriteFiles {
                target: before.backup,
                backup: None,
                ..before
            }),
            WritePhase::Discard(_) => after == (WriteFiles { temporary: None, ..before }),
            WritePhase::RemoveBackup => after == (WriteFiles { backup: None, ..before }),
            _ => after == before,
        }
    }
}

/// Where the old content and the new one are in a phase.
pub open spec fn keeps_content(
    phase: WritePhase,
    old_content: Option<Seq<u8>>,
    content: Seq<u8>,
    files: WriteFiles,
) -> bool {
    match phase {
        WritePhase::CreateParent | WritePhase::WriteTemporary => files.target == old_content,
        WritePhase::Publish | WritePhase::BackUp => files.target == old_content && files.temporary
            == Some(content),
        WritePhase::Replace => files.backup == old_content && files.temporary == Some(content),
        WritePhase::Restore(_) => files.backup == old_content,
        WritePhase::RemoveBackup => files.target == Some(content),
        WritePhase::Discard(_) => files.target == old_content || files.backup == old_content,
        WritePhase::Done(Ok(())) => files.target == Some(content),
        WritePhase::Done(Err(_)) => files.target == Some(content) || files.target == old_content
            || files.backup == old_content,
    }
}

/// A file that is replaced is never lost: whichever of the steps fail, there is at each moment
/// its old content or its new one, and at the end, unless an error is reported, the new one is in
/// its place.
pub proof fn law_replaced_file_is_not_lost(
    phase: WritePhase,
    outcome: Result<(), String>,
    target_exists: bool,
    backup_place: Seq<char>,
    next: WritePhase,
    old_content: Option<Seq<u8>>,
    content: Seq<u8>,
    before: WriteFiles,
    after: WriteFiles,
)
    requires
        follows(phase, outcome, target_exists, backup_place, next),
        performs(phase, content, outcome is Ok, before, after),
        keeps_content(phase, old_content, content, before),
    ensures
        keeps_content(next, old_content, content, after),
{
}

/// An identity that was stored is this device's again, unless a key is not 32 bytes long.
pub proof fn law_stored_identity_is_restored(stored: StoredIdentity, r: AppResult<DeviceIdentity>)
    requires
        call_ensures(restore_identity, (stored,), r),
    ensures
        r is Ok <==> stored.private_key@.len() == 32 && stored.public_key@.len() == 32,
        r matches Ok(identity) ==> identity.private_key@ == stored.private_key@
            && identity.public_key@ == stored.public_key@,
{
}

/// A new identity is the key pair that was drawn.
pub proof fn law_drawn_keys_are_the_identity(
    private_key: Vec<u8>,
    public_key: Vec<u8>,
    r: AppResult<DeviceIdentity>,
)
    requires
        call_ensures(
            identity_from_keypair,
            (Ok::<(Vec<u8>, Vec<u8>), String>((private_key, public_key)),),
            r,
        ),
    ensures
        r is Ok <==> private_key@.len() == 32 && public_key@.len() == 32,
        r matches Ok(identity) ==> identity.private_key@ == private_key@ && identity.public_key@
            == public_key@,
{
}

/// The fingerprint of a device is that of its public key, however it is asked for.
pub proof fn law_fingerprint_is_of_public_key(
    identity: DeviceIdentity,
    key: &[u8],
    own: String,
    told: String,
)
    requires
        call_ensures(DeviceIdentity::fingerprint, (&identity,), own),
        key@ == identity.public_key@,
        call_ensures(fingerprint, (key,), told),
    ensures
        own@ == told@,
        own@.len() == 64,
{
}

/// The phases that follow on each other, where each does what it is to do.
pub open spec fn is_smooth_run(phases: Seq<WritePhase>, has_parent: bool, replaces: bool) -> bool {
    &&& phases.len() == 6
    &&& call_ensures(begin_write, (has_parent,), phases[0])
    &&& forall|i: int| 0 < i < phases.len() ==> #[trigger] is_next_phase(phases, replaces, i)
}

/// A phase follows on the one before, which has done what it was to do.
pub open spec fn is_next_phase(phases: Seq<WritePhase>, replaces: bool, i: int) -> bool {
    exists|place: &str| #[trigger]
        call_ensures(
            next_write,
            (phases[i - 1], Ok::<(), String>(()), replaces, place),
            phases[i],
        )
}

/// Where every phase does what it is to do, the writing comes to its end: a file that was there is
/// kept aside before the new one takes its place, and removed after it, and what was written is
/// never put directly in the place of another file.
pub proof fn law_writing_comes_to_its_end(
    phases: Seq<WritePhase>,
    has_parent: bool,
    replaces: bool,
)
    requires
        is_smooth_run(phases, has_parent, replaces),
    ensures
        phases.last() == WritePhase::Done(Ok(())),
        has_parent ==> phases[0] is CreateParent && phases[1] is WriteTemporary,
        !has_parent ==> phases[0] is WriteTemporary,
        replaces ==> exists|i: int|
            0 <= i < 3 && (#[trigger] phases[i]) is BackUp && phases[i + 1] is Replace && phases[i
                + 2] is RemoveBackup,
        replaces ==> forall|i: int| 0 <= i < phases.len() ==> !((#[trigger] phases[i]) is Publish),
        !replaces ==> exists|i: int| 0 <= i < 3 && (#[trigger] phases[i]) is Publish,
{
    assert(is_next_phase(phases, replaces, 1));
    assert(is_next_phase(phases, replaces, 2));
    assert(is_next_phase(phases, replaces, 3));
    assert(is_next_phase(phases, replaces, 4));
    assert(is_next_phase(phases, replaces, 5));
    let at = if has_parent {
        2
    } else {
        1
    };
    assert(replaces ==> phases[at] is BackUp);
    assert(!replaces ==> phases[at] is Publish);
}

/// A failure is not passed over: the writing then ends with an error, and where the old file was
/// kept aside, it is put back first.
pub proof fn law_failed_writing_ends_with_error(
    phase: WritePhase,
    cause: String,
    replaces: bool,
    place: &str,
    next: WritePhase,
)
    requires
        call_ensures(next_write, (phase, Err::<(), String>(cause), replaces, place), next),
        !(phase is Done),
    ensures
        phase is Replace <==> next is Restore,
        next is Restore || next is Discard || (next matches WritePhase::Done(result)
            && result is Err),
        phase is Publish ==> next is Discard,
{
}

/// What ends, stays ended, and an error that led to the end is the one that is reported.
pub proof fn law_error_is_reported(
    error: AppError,
    outcome: Result<(), String>,
    replaces: bool,
    place: &str,
    next: WritePhase,
    restored: WritePhase,
    first: String,
)
    requires
        call_ensures(next_write, (WritePhase::Discard(error), outcome, replaces, place), next),
        call_ensures(
            next_write,
            (WritePhase::Restore(first), Ok::<(), String>(()), replaces, place),
            restored,
        ),
    ensures
        next == WritePhase::Done(Err(error)),
        restored matches WritePhase::Discard(e) && e == AppError::Io(first),
{
}

/// Names beside a file are told apart by their identifiers.
pub proof fn law_sibling_name_shows_its_file(
    file_name: &str,
    id: Uuid,
    suffix: &str,
    r: String,
)
    requires
        call_ensures(sibling_name, (Some(file_name), id, suffix), r),
    ensures
        r@.len() == file_name@.len() + 37 + suffix@.len(),
        r@.take(file_name@.len() as int) == file_name@,
        r@.skip(r@.len() - suffix@.len()) == suffix@,
        r@.subrange((file_name@.len() + 1) as int, (file_name@.len() + 37) as int)
            == crate::ids::hyphenated(
            id.value,
        ),
{
    crate::ids::lemma_hyphenated(id.value);
    reveal_strlit(".");
    assert(r@.take(file_name@.len() as int) =~= file_name@);
    assert(r@.skip(r@.len() - suffix@.len()) =~= suffix@);
    assert(r@.subrange((file_name@.len() + 1) as int, (file_name@.len() + 37) as int) =~= crate::ids::hyphenated(
        id.value,
    ));
}

/// An identity is valid if both its keys are 32 bytes long.
pub proof fn law_identity_is_validated(identity: StoredIdentity, r: AppResult<()>)
    requires
        call_ensures(validate_identity, (&identity,), r),
    ensures
        r is Ok <==> identity.private_key@.len() == 32 && identity.public_key@.len() == 32,
{
}

/// A clock that stands before the epoch is taken as standing at it.
pub proof fn law_seconds_are_counted_from_the_epoch(reading: Option<u64>, r: u64)
    requires
        call_ensures(seconds_since_epoch, (reading,), r),
    ensures
        reading matches Some(seconds) ==> r == seconds,
        reading is None ==> r == 0,
{
}

} // verus!
