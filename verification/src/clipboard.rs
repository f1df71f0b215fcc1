//! How the text of the clipboard is kept the same on connected devices.
use crate::digest;
use crate::ids::Uuid;
use crate::models::{Notice, NoticeLevel};
use crate::protocol::{Frame, Message};
use crate::text;
use vstd::prelude::*;

verus! {

pub const MAX_CLIPBOARD_TEXT_BYTES: usize = 512 * 1024;

/// What has last been sent to other devices, or come from one.
#[derive(Debug)]
pub struct ClipboardSync {
    pub last_sent_hash: String,
}

/// What a text in the clipboard leads to.
#[derive(Debug)]
pub enum ClipboardStep {
    Nothing,
    /// The text is not sent, and the user is told so.
    Skipped(Notice),
    /// The frame is to be sent.
    Offer(Frame),
}

/// The frame carries this text.
pub open spec fn carries(frame: Frame, data: Seq<u8>) -> bool {
    &&& frame.message is ClipboardText
    &&& frame.message->ClipboardText_message_id.is_random()
    &&& frame.message->ClipboardText_sha256@ == digest::digest_text(data)
    &&& frame.payload@ == data
}

/// The user is told that the text is too long.
pub open spec fn is_length_notice(notice: Notice) -> bool {
    notice.level == NoticeLevel::Info && notice.message@ == "剪贴板文本超过 512 KiB，本次未同步"@
}

fn length_notice() -> (r: Notice)
    ensures
        is_length_notice(r),
{
    Notice {
        level: NoticeLevel::Info,
        message: String::from_str("剪贴板文本超过 512 KiB，本次未同步"),
    }
}

fn text_frame(data: Vec<u8>, sha256: String) -> (r: Frame)
    requires
        sha256@ == digest::digest_text(data@),
    ensures
        carries(r, data@),
{
    Frame::with_payload(Message::ClipboardText { message_id: Uuid::new_v4(), sha256 }, data)
}

impl ClipboardSync {
    /// Nothing has been sent yet.
    pub fn new() -> (r: Self)
        ensures
            r.last_sent_hash@ == Seq::<char>::empty(),
    {
        let last_sent_hash = String::new();
        proof {
            assert(last_sent_hash@ =~= Seq::<char>::empty());
        }
        ClipboardSync { last_sent_hash }
    }

    /// Notes that a text from another device with this digest is in the clipboard, or gives what
    /// the user is told where it could not be put there.
    pub fn remote_applied(&mut self, sha256: String, written: &Result<(), String>) -> (r: Option<
        Notice,
    >)
        ensures
            match written {
                Ok(()) => r is None && final(self).last_sent_hash == sha256,
                Err(cause) => {
                    &&& *final(self) == *old(self)
                    &&& r is Some
                    &&& r->0.level == NoticeLevel::Error
                    &&& r->0.message@ == "写入剪贴板失败："@ + cause@
                },
            },
    {
        match written {
            Ok(()) => {
                self.last_sent_hash = sha256;
                None
            },
            Err(cause) => Some(
                Notice {
                    level: NoticeLevel::Error,
                    message: text::joined("写入剪贴板失败：", cause),
                },
            ),
        }
    }

    /// What a new text in the clipboard of this device leads to. A text that has been sent, or
    /// has come from another device, is not sent again.
    pub fn local_changed(&mut self, enabled: bool, data: Vec<u8>) -> (r: ClipboardStep)
        ensures
            if !enabled || old(self).stays_here(data@) {
                r is Nothing && *final(self) == *old(self)
            } else if data@.len() > MAX_CLIPBOARD_TEXT_BYTES {
                &&& r matches ClipboardStep::Skipped(notice)
                &&& is_length_notice(notice)
                &&& final(self).last_sent_hash@ == digest::digest_text(data@)
            } else {
                &&& r matches ClipboardStep::Offer(frame)
                &&& carries(frame, data@)
                &&& *final(self) == *old(self)
            },
    {
        if !enabled {
            return ClipboardStep::Nothing;
        }
        let hash = digest::hash_bytes(data.as_slice());
        if text::same(&hash, &self.last_sent_hash) {
            return ClipboardStep::Nothing;
        }
        if data.len() > MAX_CLIPBOARD_TEXT_BYTES {
            self.last_sent_hash = hash;
            return ClipboardStep::Skipped(length_notice());
        }
        ClipboardStep::Offer(text_frame(data, hash))
    }

    /// What the text in the clipboard leads to when a device has just been connected.
    pub fn peer_joined(&self, enabled: bool, data: Vec<u8>) -> (r: ClipboardStep)
        ensures
            if !enabled {
                r is Nothing
            } else if data@.len() > MAX_CLIPBOARD_TEXT_BYTES {
                r matches ClipboardStep::Skipped(notice) && is_length_notice(notice)
            } else {
                r matches ClipboardStep::Offer(frame) && carries(frame, data@)
            },
    {
        if !enabled {
            return ClipboardStep::Nothing;
        }
        if data.len() > MAX_CLIPBOARD_TEXT_BYTES {
            return ClipboardStep::Skipped(length_notice());
        }
        let hash = digest::hash_bytes(data.as_slice());
        ClipboardStep::Offer(text_frame(data, hash))
    }

    /// Notes that a frame has been sent, where it has.
    pub fn offered(&mut self, sha256: String, sent: bool)
        ensures
            *final(self) == if sent {
                ClipboardSync { last_sent_hash: sha256 }
            } else {
                *old(self)
            },
    {
        if sent {
            self.last_sent_hash = sha256;
        }
    }

    /// The text is not sent to other devices when it is found in the clipboard.
    pub open spec fn stays_here(&self, data: Seq<u8>) -> bool {
        self.last_sent_hash@ == digest::digest_text(data)
    }
}

/// A text that has come from another device, or has been sent to the others, does not set off
/// another round of messages.
pub proof fn law_text_is_not_echoed(sync: ClipboardSync, frame: Frame, data: Seq<u8>)
    requires
        carries(frame, data),
        sync.last_sent_hash@ == frame.message->ClipboardText_sha256@,
    ensures
        sync.stays_here(data),
{
}

/// A text of up to 512 KiB goes to a device that has just come, unchanged, and a longer one does
/// not; nothing goes where the clipboard is not shared.
pub proof fn law_text_is_offered_to_newcomers(
    sync: ClipboardSync,
    enabled: bool,
    data: Vec<u8>,
    r: ClipboardStep,
)
    requires
        call_ensures(ClipboardSync::peer_joined, (&sync, enabled, data), r),
    ensures
        r is Offer <==> enabled && data@.len() <= 524288,
        r is Nothing <==> !enabled,
        r matches ClipboardStep::Offer(frame) ==> frame.payload@ == data@,
{
}

/// A text that is new here goes to the other devices, unchanged, if it is not longer than 512 KiB.
pub proof fn law_new_text_is_offered(
    sync: &mut ClipboardSync,
    data: Vec<u8>,
    r: ClipboardStep,
)
    requires
        call_ensures(ClipboardSync::local_changed, (sync, true, data), r),
        old(sync).last_sent_hash@ != digest::digest_text(data@),
    ensures
        r is Offer <==> data@.len() <= 524288,
        r is Skipped <==> data@.len() > 524288,
        r matches ClipboardStep::Offer(frame) ==> frame.payload@ == data@,
{
}

/// While the clipboard is not shared, what changes here stays here.
pub proof fn law_text_stays_here_unless_shared(
    sync: &mut ClipboardSync,
    data: Vec<u8>,
    r: ClipboardStep,
)
    requires
        call_ensures(ClipboardSync::local_changed, (sync, false, data), r),
    ensures
        r is Nothing,
        *final(sync) == *old(sync),
{
}

/// A text that has come from another device and was written here is not sent back.
pub proof fn law_applied_text_is_not_sent_back(
    other: ClipboardSync,
    sync: &mut ClipboardSync,
    next: &mut ClipboardSync,
    data: Vec<u8>,
    frame: Frame,
    enabled: bool,
    told: Option<Notice>,
    r: ClipboardStep,
)
    requires
        call_ensures(
            ClipboardSync::peer_joined,
            (&other, true, data),
            ClipboardStep::Offer(frame),
        ),
        call_ensures(
            ClipboardSync::remote_applied,
            (sync, frame.message->ClipboardText_sha256, &Ok::<(), String>(())),
            told,
        ),
        *next == *final(sync),
        call_ensures(ClipboardSync::local_changed, (next, enabled, frame.payload), r),
    ensures
        r is Nothing,
        told is None,
{
}

/// A text that was sent is not sent again while it stays, and one that could not be sent is.
pub proof fn law_text_is_sent_once(
    sync: &mut ClipboardSync,
    noted: &mut ClipboardSync,
    next: &mut ClipboardSync,
    data: Vec<u8>,
    frame: Frame,
    sent: bool,
    r: ClipboardStep,
)
    requires
        call_ensures(
            ClipboardSync::local_changed,
            (sync, true, data),
            ClipboardStep::Offer(frame),
        ),
        *noted == *final(sync),
        call_ensures(
            ClipboardSync::offered,
            (noted, frame.message->ClipboardText_sha256, sent),
            (),
        ),
        *next == *final(noted),
        call_ensures(ClipboardSync::local_changed, (next, true, data), r),
    ensures
        sent ==> r is Nothing,
        !sent ==> (r matches ClipboardStep::Offer(again) && again.payload@ == data@),
{
}

/// A text that could not be written here is not taken as one that is here, and the user is told why.
pub proof fn law_unwritten_text_is_not_here(
    sync: &mut ClipboardSync,
    sha256: String,
    cause: String,
    r: Option<Notice>,
)
    requires
        call_ensures(
            ClipboardSync::remote_applied,
            (sync, sha256, &Err::<(), String>(cause)),
            r,
        ),
    ensures
        *final(sync) == *old(sync),
        r matches Some(notice) && notice.level is Error && notice.message@.len() >= cause@.len()
            && notice.message@.skip(notice.message@.len() - cause@.len()) == cause@,
{
    let m = r->0.message@;
    assert(m.skip(m.len() - cause@.len()) =~= cause@);
}

/// A text that is too long is mentioned once, not each time.
pub proof fn law_long_text_is_mentioned_once(
    sync: &mut ClipboardSync,
    next: &mut ClipboardSync,
    data: Vec<u8>,
    first: ClipboardStep,
    second: ClipboardStep,
)
    requires
        data@.len() > 524288,
        call_ensures(ClipboardSync::local_changed, (sync, true, data), first),
        *next == *final(sync),
        call_ensures(ClipboardSync::local_changed, (next, true, data), second),
    ensures
        !(first is Offer),
        second is Nothing,
{
}

} // verus!
