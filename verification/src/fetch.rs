//! The enumeration of a title's add-ons at the store, one request after the
//! other. This module decides what to ask next, what to tell the user, and what
//! each answer adds; the requests themselves are made elsewhere.

use vstd::prelude::*;
use crate::dlc::{dlc_views, DlcInfo, DlcView};
use crate::installer::InstallerError;
use crate::json::{dlc_ids, dlc_name, listed_dlc_ids, listed_dlc_name, Json};
use crate::text::{decimal, decimal_of, push_all, push_str, string_of, strings};

verus! {

/// An enumeration under way: the identifiers to ask for, how many of them were
/// dealt with, and the add-ons found so far.
#[derive(Debug)]
pub struct DlcFetch {
    ids: Vec<String>,
    position: usize,
    found: Vec<DlcInfo>,
}

/// An enumeration as plain values.
pub struct FetchView {
    pub ids: Seq<Seq<char>>,
    pub position: nat,
    pub found: Seq<DlcView>,
}

impl View for DlcFetch {
    type V = FetchView;

    closed spec fn view(&self) -> FetchView {
        FetchView {
            ids: strings(self.ids@),
            position: self.position as nat,
            found: dlc_views(self.found@),
        }
    }
}

/// What to do next in an enumeration.
#[derive(Debug, Clone)]
pub enum FetchStep {
    /// Ask the store for the add-on `dlc_id`, after telling the user.
    Request { dlc_id: String, message: String, progress: u32, time_left: String },
    /// Every identifier was dealt with.
    Finished { message: String, progress: u32 },
}

/// A step as plain values.
pub enum FetchStepView {
    Request { dlc_id: Seq<char>, message: Seq<char>, progress: u32, time_left: Seq<char> },
    Finished { message: Seq<char>, progress: u32 },
}

impl View for FetchStep {
    type V = FetchStepView;

    open spec fn view(&self) -> FetchStepView {
        match *self {
            FetchStep::Request { dlc_id, message, progress, time_left } => FetchStepView::Request {
                dlc_id: dlc_id@,
                message: message@,
                progress,
                time_left: time_left@,
            },
            FetchStep::Finished { message, progress } => FetchStepView::Finished {
                message: message@,
                progress,
            },
        }
    }
}

/// What the store answered to one request.
#[derive(Debug)]
pub enum DlcReply {
    /// The description of the add-on.
    Details(Json),
    /// Too many requests: the store asks for patience.
    RateLimited,
    /// Any other refusal.
    Refused,
}

/// The answer that a response with the status code `status` and the body
/// `body` stands for: a description for a code from 200 to 299, a plea for
/// patience for the code 429, and a refusal for any other code.
pub fn reply_for(status: u16, body: Json) -> (reply: DlcReply)
    ensures
        reply == if 200 <= status <= 299 {
            DlcReply::Details(body)
        } else if status == 429 {
            DlcReply::RateLimited
        } else {
            DlcReply::Refused
        },
{
    if 200 <= status && status <= 299 {
        DlcReply::Details(body)
    } else if status == 429 {
        DlcReply::RateLimited
    } else {
        DlcReply::Refused
    }
}

/// What follows an answer.
#[derive(Debug, Clone)]
pub enum ReplyEffect {
    /// An add-on was found; the user is told of it.
    Found(DlcInfo),
    /// Wait for so many seconds before the next request, after telling the user.
    Wait { seconds: u64, message: String },
    /// Nothing.
    Nothing,
}

/// The share of the work done, in percent, when `index` of `total` add-ons were
/// dealt with: from 10 upwards, and 100 once all were dealt with.
pub open spec fn progress_percent(index: nat, total: nat) -> nat {
    if total == 0 {
        10
    } else if index >= total {
        100
    } else {
        10 + (90 * index) / total
    }
}

/// The seconds that `remaining` requests will take at three tenths of a second
/// each, rounded up.
pub open spec fn seconds_left(remaining: nat) -> nat {
    (3 * remaining + 9) / 10
}

/// The time left, in words: seconds below a minute, else minutes rounded up.
pub open spec fn time_left_text(remaining: nat) -> Seq<char> {
    if remaining == 0 {
        "almost done"@
    } else if seconds_left(remaining) < 60 {
        "~"@ + decimal(seconds_left(remaining)) + " seconds"@
    } else {
        "~"@ + decimal((seconds_left(remaining) + 59) / 60) + " minute(s)"@
    }
}

/// The message that goes with the request number `index`, counted from 0, of `total`.
pub open spec fn processing_text(index: nat, total: nat) -> Seq<char> {
    "Processing DLC "@ + decimal(index + 1) + "/"@ + decimal(total)
}

/// The message at the end of an enumeration that found `count` add-ons.
pub open spec fn completed_text(count: nat) -> Seq<char> {
    "Completed! Found "@ + decimal(count) + " DLCs"@
}

/// The user's wish to stop ends the enumeration `f`: it is honoured before each
/// request, not once all requests were made.
pub open spec fn is_called_off(f: FetchView, cancelled: bool) -> bool {
    cancelled && f.position < f.ids.len()
}

/// The step that follows in the enumeration `f`, unless it is called off.
pub open spec fn next_step(f: FetchView) -> FetchStepView {
    if f.position >= f.ids.len() {
        FetchStepView::Finished { message: completed_text(f.found.len()), progress: 100 }
    } else {
        FetchStepView::Request {
            dlc_id: f.ids[f.position as int],
            message: processing_text(f.position, f.ids.len()),
            progress: progress_percent(f.position, f.ids.len()) as u32,
            time_left: time_left_text((f.ids.len() - f.position) as nat),
        }
    }
}

/// The time left, in words.
pub fn time_left(remaining: usize) -> (out: String)
    ensures
        out@ == time_left_text(remaining as nat),
{
    if remaining == 0 {
        return "almost done".to_owned();
    }
    let seconds: u64 = ((remaining as u128 * 3 + 9) / 10) as u64;
    let mut out: Vec<char> = Vec::new();
    push_str(&mut out, "~");
    if seconds < 60 {
        push_all(&mut out, &decimal_of(seconds));
        push_str(&mut out, " seconds");
    } else {
        push_all(&mut out, &decimal_of((seconds + 59) / 60));
        push_str(&mut out, " minute(s)");
    }
    string_of(&out)
}

/// The share of the work done, in percent.
pub fn percent_done(index: usize, total: usize) -> (p: u32)
    ensures
        p == progress_percent(index as nat, total as nat),
        10 <= p <= 100,
{
    if total == 0 {
        return 10;
    }
    if index >= total {
        return 100;
    }
    let scaled: u128 = index as u128 * 90;
    let share: u128 = scaled / (total as u128);
    assert(share <= 90) by (nonlinear_arith)
        requires
            share == scaled / (total as u128),
            scaled == index * 90,
            index <= total,
            total > 0,
    ;
    10 + share as u32
}

/// Begins the enumeration of the add-ons of the title `app_id`, whose
/// identifiers the store's answer `details` lists.
pub fn fetch_dlc_details(details: &Json, app_id: &str) -> (f: DlcFetch)
    ensures
        f@.ids == listed_dlc_ids(*details, app_id@),
        f@.position == 0,
        f@.found == Seq::<DlcView>::empty(),
{
    let f = DlcFetch { ids: dlc_ids(details, app_id), position: 0, found: Vec::new() };
    assert(dlc_views(f.found@) =~= Seq::<DlcView>::empty());
    f
}

/// The step that follows in the enumeration `f`, with what to tell the user;
/// `cancelled` says whether the user wishes to stop, which ends the enumeration
/// before any request that is still to be made.
pub fn fetch_dlc_details_with_progress(f: &DlcFetch, cancelled: bool) -> (r: Result<
    FetchStep,
    InstallerError,
>)
    ensures
        match r {
            Ok(step) => !is_called_off(f@, cancelled) && step@ == next_step(f@),
            Err(e) => is_called_off(f@, cancelled) && e == InstallerError::Cancelled,
        },
{
    let total = f.ids.len();
    if f.position >= total {
        let mut message: Vec<char> = Vec::new();
        push_str(&mut message, "Completed! Found ");
        push_all(&mut message, &decimal_of(f.found.len() as u64));
        push_str(&mut message, " DLCs");
        return Ok(FetchStep::Finished { message: string_of(&message), progress: 100 });
    }
    if cancelled {
        return Err(InstallerError::Cancelled);
    }
    let mut message: Vec<char> = Vec::new();
    push_str(&mut message, "Processing DLC ");
    push_all(&mut message, &decimal_of(f.position as u64 + 1));
    push_str(&mut message, "/");
    push_all(&mut message, &decimal_of(total as u64));
    Ok(
        FetchStep::Request {
            dlc_id: f.ids[f.position].clone(),
            message: string_of(&message),
            progress: percent_done(f.position, total),
            time_left: time_left(total - f.position),
        },
    )
}

impl DlcFetch {
    /// Takes in the store's answer to the request that was due. A description
    /// adds the add-on under the identifier that was asked for; a plea for
    /// patience asks for ten seconds of it; any other refusal adds nothing.
    /// Each of them counts the identifier as dealt with. Once every identifier
    /// was dealt with, an answer changes nothing.
    pub fn record(&mut self, reply: &DlcReply) -> (effect: ReplyEffect)
        ensures
            final(self)@.ids == old(self)@.ids,
            old(self)@.position >= old(self)@.ids.len() ==> final(self)@ == old(self)@
                && effect is Nothing,
            old(self)@.position < old(self)@.ids.len() ==> final(self)@.position == old(
                self,
            )@.position + 1 && match *reply {
                DlcReply::Details(json) => {
                    let dlc = DlcView {
                        appid: old(self)@.ids[old(self)@.position as int],
                        name: listed_dlc_name(json, old(self)@.ids[old(self)@.position as int]),
                        enabled: true,
                    };
                    &&& final(self)@.found == old(self)@.found.push(dlc)
                    &&& effect matches ReplyEffect::Found(d) && d@ == dlc
                },
                DlcReply::RateLimited => {
                    &&& final(self)@.found == old(self)@.found
                    &&& effect matches ReplyEffect::Wait { seconds, message } && seconds == 10
                        && message@ == "Rate limited by Steam. Waiting..."@
                },
                DlcReply::Refused => final(self)@.found == old(self)@.found && effect is Nothing,
            },
    {
        if self.position >= self.ids.len() {
            return ReplyEffect::Nothing;
        }
        let id = self.ids[self.position].clone();
        self.position = self.position + 1;
        match reply {
            DlcReply::Details(json) => {
                let name = dlc_name(json, id.as_str());
                let ghost before = dlc_views(self.found@);
                let dlc = DlcInfo { appid: id.clone(), name: name.clone() };
                self.found.push(dlc);
                assert(dlc_views(self.found@) =~= before.push(
                    DlcView { appid: id@, name: name@, enabled: true },
                ));
                ReplyEffect::Found(DlcInfo { appid: id, name })
            },
            DlcReply::RateLimited => ReplyEffect::Wait {
                seconds: 10,
                message: "Rate limited by Steam. Waiting...".to_owned(),
            },
            DlcReply::Refused => ReplyEffect::Nothing,
        }
    }

    /// Whether every identifier was dealt with.
    pub fn is_finished(&self) -> (r: bool)
        ensures
            r == (self@.position >= self@.ids.len()),
    {
        self.position >= self.ids.len()
    }

    /// The add-ons found, in the order of their requests.
    pub fn into_details(self) -> (found: Vec<DlcInfo>)
        ensures
            dlc_views(found@) == self@.found,
    {
        self.found
    }
}

/// The pause, in milliseconds, before each request to the store.
pub const REQUEST_PAUSE_MS: u64 = 300;

/// The address at which the store describes the title or add-on `app_id`.
pub fn details_url(app_id: &str) -> (url: String)
    ensures
        url@ == "https://store.steampowered.com/api/appdetails?appids="@ + app_id@,
{
    let mut out: Vec<char> = Vec::new();
    push_str(&mut out, "https://store.steampowered.com/api/appdetails?appids=");
    push_str(&mut out, app_id);
    string_of(&out)
}

/// The time, in milliseconds, for which a wish to stop holds.
pub const CANCEL_HOLDS_MS: u64 = 500;

/// The user's wish to stop an enumeration. It holds for half a second from the
/// moment it was made and lapses by itself, so that a later enumeration is not
/// stopped by it.
#[derive(Debug, Clone, Copy, PartialEq, Eq, Structural)]
pub struct CancelToken {
    /// The reading of the clock, in milliseconds, when the wish was made.
    pub raised_at: Option<u64>,
}

impl CancelToken {
    /// Whether the wish holds at the clock reading `now`.
    pub open spec fn holds_at(self, now: u64) -> bool {
        match self.raised_at {
            Some(t) => t <= now && now - t < CANCEL_HOLDS_MS,
            None => false,
        }
    }

    /// A token without a wish.
    pub fn new() -> (t: CancelToken)
        ensures
            t.raised_at is None,
    {
        CancelToken { raised_at: None }
    }

    /// Makes the wish to stop, at the clock reading `now`.
    pub fn abort_dlc_fetch(&mut self, now: u64)
        ensures
            final(self).raised_at == Some(now),
            final(self).holds_at(now),
    {
        self.raised_at = Some(now);
    }

    /// Whether the wish holds at the clock reading `now`.
    pub fn is_cancelled(&self, now: u64) -> (r: bool)
        ensures
            r == self.holds_at(now),
    {
        match self.raised_at {
            Some(t) => t <= now && now - t < CANCEL_HOLDS_MS,
            None => false,
        }
    }
}

} // verus!
