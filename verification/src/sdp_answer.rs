//! Answering a peer's SDP offer with the str0m engine: the offer's candidate
//! lines are stripped (candidates arrive by trickle ICE), the rest is parsed
//! and accepted by the engine, and the engine's answer is written out, marked
//! relay-only where the client uses relays only.

use vstd::prelude::*;

use str0m::change::{SdpAnswer, SdpOffer};
use str0m::channel::{ChannelConfig, ChannelId};
use str0m::error::SdpError;
use str0m::{Rtc, RtcError};

use crate::rtc_logic::{relay_only_answer, relay_only_trickle_line, replace_all, trickle_line};
use crate::gather::{gather_reason, is_stun_failure, GatherFailure};
use crate::sdp::{is_candidate_line, strip_candidates_from_sdp};
use crate::text::{crlf, join, lines_of, push_str, starts_with};

verus! {

#[verifier::external_type_specification]
#[verifier::external_body]
pub struct ExRtc(Rtc);

#[verifier::external_type_specification]
#[verifier::external_body]
pub struct ExSdpOffer(SdpOffer);

#[verifier::external_type_specification]
#[verifier::external_body]
pub struct ExSdpAnswer(SdpAnswer);

#[verifier::external_type_specification]
#[verifier::external_body]
pub struct ExSdpError(SdpError);

#[verifier::external_type_specification]
#[verifier::external_body]
pub struct ExRtcError(RtcError);

#[verifier::external_type_specification]
#[verifier::external_body]
pub struct ExChannelId(ChannelId);

/// Whether str0m reads `sdp` as a session description
/// (`SdpOffer::from_sdp_string` succeeds).
pub uninterp spec fn sdp_offer_parses(sdp: Seq<char>) -> bool;

/// `SdpOffer::from_sdp_string` of str0m. Claims that whether it succeeds
/// depends on the text alone.
#[verifier::external_body]
fn offer_from_sdp_string(sdp: &str) -> (r: Result<SdpOffer, SdpError>)
    ensures
        (r is Ok) == sdp_offer_parses(sdp@),
{
    SdpOffer::from_sdp_string(sdp)
}

/// `SdpApi::accept_offer` of str0m, through `Rtc::sdp_api`. Nothing is
/// claimed: the engine's state decides whether the offer is accepted.
#[verifier::external_body]
fn engine_accept_offer(rtc: &mut Rtc, offer: SdpOffer) -> (r: Result<SdpAnswer, RtcError>) {
    rtc.sdp_api().accept_offer(offer)
}

/// `SdpAnswer::to_sdp_string` of str0m. Claims only that the text begins
/// with the version line `v=0`, which str0m's `Display` of a session writes
/// first; the rest holds ICE credentials and a DTLS fingerprint drawn at
/// random.
#[verifier::external_body]
fn answer_to_sdp_string(answer: &SdpAnswer) -> (r: String)
    ensures
        starts_with(r@, "v=0\r\n"@),
{
    answer.to_sdp_string()
}

/// The data channels a connection negotiates before it answers an offer:
/// label, whether it is ordered, and stream id.
pub open spec fn channel_plan_spec() -> Seq<(Seq<char>, bool, u16)> {
    seq![("reliable"@, false, 1u16), ("unordered_msg"@, false, 2u16), ("ordered_msg"@, true, 3u16)]
}

/// The data channels a connection negotiates (see `channel_plan_spec`).
pub fn channel_plan() -> (r: Vec<(&'static str, bool, u16)>)
    ensures
        r@.len() == channel_plan_spec().len(),
        forall|i: int|
            0 <= i < r@.len() ==> (#[trigger] r@[i]).0@ == channel_plan_spec()[i].0 && r@[i].1
                == channel_plan_spec()[i].1 && r@[i].2 == channel_plan_spec()[i].2,
{
    let r = vec![("reliable", false, 1u16), ("unordered_msg", false, 2u16), ("ordered_msg", true, 3u16)];
    proof {
        reveal_strlit("reliable");
        reveal_strlit("unordered_msg");
        reveal_strlit("ordered_msg");
    }
    r
}

/// `DirectApi::create_data_channel` of str0m, through `Rtc::direct_api`,
/// for a pre-negotiated channel `label` with stream id `stream_id`. Nothing
/// is claimed of the id the engine gives the channel.
#[verifier::external_body]
fn open_negotiated_channel(rtc: &mut Rtc, label: &str, ordered: bool, stream_id: u16) -> (r: ChannelId) {
    rtc.direct_api().create_data_channel(ChannelConfig {
        label: label.to_string(),
        ordered,
        negotiated: Some(stream_id),
        ..Default::default()
    })
}

/// The channels of a connection, as the engine numbers them.
pub struct ChannelIds {
    pub reliable: ChannelId,
    pub unordered_msg: ChannelId,
    pub ordered_msg: ChannelId,
}

/// Opens the channels of `channel_plan` on the engine, in its order.
pub fn open_channels(rtc: &mut Rtc) -> ChannelIds {
    let plan = channel_plan();
    let reliable = open_negotiated_channel(rtc, plan[0].0, plan[0].1, plan[0].2);
    let unordered_msg = open_negotiated_channel(rtc, plan[1].0, plan[1].1, plan[1].2);
    let ordered_msg = open_negotiated_channel(rtc, plan[2].0, plan[2].1, plan[2].2);
    ChannelIds { reliable, unordered_msg, ordered_msg }
}

/// Why an offer was not answered.
#[derive(Clone, Copy, Debug, PartialEq, Eq, Structural)]
pub enum AnswerError {
    /// The offer, without its candidate lines, is no session description.
    Sdp,
    /// The engine refused the offer.
    Rtc,
}

/// An offer without its candidate lines (see `strip_candidates_from_sdp`).
pub open spec fn stripped_offer(sdp: Seq<char>) -> Seq<char> {
    join(lines_of(sdp).filter(|l: Seq<char>| !is_candidate_line(l)), crlf())
}

/// The answer text sent for the engine's answer `raw`: for a relay-only
/// client, every trickle line marked relay-only (see `relay_only_answer`).
pub open spec fn sent_answer(raw: Seq<char>, relay_only: bool) -> Seq<char> {
    if relay_only {
        replace_all(raw, trickle_line(), relay_only_trickle_line())
    } else {
        raw
    }
}

/// The answer text sent for the engine's answer `raw`: marked relay-only
/// exactly for a relay-only client (see `sent_answer`).
pub fn finish_answer(raw: &str, relay_only: bool) -> (a: String)
    ensures
        a@ == sent_answer(raw@, relay_only),
{
    if relay_only {
        relay_only_answer(raw)
    } else {
        let mut a = String::new();
        push_str(&mut a, raw);
        a
    }
}

/// The answer to the offer `offer_sdp`, made by the engine `rtc`, with the
/// channels it opened and, as a ghost, the engine's own answer text. The
/// offer is stripped of its candidate lines and parsed; it fails with `Sdp`
/// exactly where the stripped offer does not parse. Then the channels of
/// `channel_plan` are opened and the engine accepts the offer, or refuses it
/// (`Rtc`). An answer is the engine's text (which begins with `v=0`) as
/// `finish_answer` makes it: marked relay-only exactly for a relay-only
/// client.
pub fn answer_offer(rtc: &mut Rtc, offer_sdp: &str, relay_only: bool) -> (r: (
    Result<(String, ChannelIds), AnswerError>,
    Ghost<Seq<char>>,
))
    ensures
        (r.0 is Err && r.0->Err_0 == AnswerError::Sdp) == !sdp_offer_parses(stripped_offer(offer_sdp@)),
        r.0 matches Ok((a, _)) ==> a@ == sent_answer(r.1@, relay_only) && starts_with(r.1@, "v=0\r\n"@),
{
    let stripped = strip_candidates_from_sdp(offer_sdp);
    let offer = match offer_from_sdp_string(stripped.as_str()) {
        Ok(o) => o,
        Err(_) => return (Err(AnswerError::Sdp), Ghost(Seq::empty())),
    };
    let ids = open_channels(rtc);
    let answer = match engine_accept_offer(rtc, offer) {
        Ok(a) => a,
        Err(_) => return (Err(AnswerError::Rtc), Ghost(Seq::empty())),
    };
    let raw = answer_to_sdp_string(&answer);
    let a = finish_answer(raw.as_str(), relay_only);
    (Ok((a, ids)), Ghost(raw@))
}

/// Why a connection to a peer could not be set up.
#[derive(Clone, Debug)]
pub enum ConnectError {
    /// Gathering the local candidates failed; the text says why.
    Signalling(String),
    /// The offer could not be answered.
    Answer(AnswerError),
}

/// The text of a gathering failure: `STUN error: ` or `TURN error: `, then
/// its reason.
pub open spec fn gather_error_text(f: GatherFailure) -> Seq<char> {
    (if is_stun_failure(f) {
        "STUN error: "@
    } else {
        "TURN error: "@
    }) + gather_reason(f)
}

/// The error a connection fails with when gathering fails with `f`: a
/// signalling error carrying the failure's text.
pub fn gathering_failed(f: GatherFailure) -> (r: ConnectError)
    ensures
        r matches ConnectError::Signalling(m) && m@ == gather_error_text(f),
{
    let mut m = String::new();
    if f.is_stun() {
        push_str(&mut m, "STUN error: ");
    } else {
        push_str(&mut m, "TURN error: ");
    }
    push_str(&mut m, f.reason());
    proof {
        reveal_strlit("STUN error: ");
        reveal_strlit("TURN error: ");
    }
    ConnectError::Signalling(m)
}

} // verus!
