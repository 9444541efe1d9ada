//! The OATH protocol engine: credential enumeration with multi-frame
//! continuation, challenge computation, and one-time-code calculation.
//!
//! Every function that drives a [`SmartCard`] states what holds of its result
//! whatever bytes the card answered; the byte-level logic itself — building
//! commands, accumulating continuation frames, decoding responses — stands in
//! pure verified functions with exact contracts.

use vstd::prelude::*;

use crate::apdu::MAX_NAME_BYTES;
use crate::apdu::STATUS_AUTH_REQUIRED_SW2;
use crate::apdu::STATUS_ERROR_SW1;
use crate::apdu::STATUS_MORE_DATA;
use crate::apdu::STATUS_NO_SUCH_OBJECT_SW2;
use crate::apdu::TAG_RESPONSE_FULL;
use crate::apdu::TAG_RESPONSE_TRUNCATED;
use crate::apdu::calculate_apdu;
use crate::apdu::list_apdu;
use crate::apdu::remaining_apdu;
use crate::matching::filter_matching;
use crate::matching::spec_matching;
use crate::tlv::parse_credentials;
use crate::tlv::spec_parse_credentials;
use crate::transport::SmartCard;

verus! {

/// Seconds per OATH time step: a challenge counts these windows.
pub const OATH_INTERVAL_SECONDS: u64 = 30;

/// A directory listing is abandoned as a protocol violation after this many
/// continuation rounds, so a token that keeps signalling "more data" cannot
/// hold the loop forever.
pub const MAX_CONTINUATION_ROUNDS: usize = 255;

/// A failure of one engine invocation.
#[derive(Clone, Copy, Debug, PartialEq, Eq, Structural)]
pub enum Error {
    /// A transport fault or a structurally malformed response.
    Yubikey,
    /// No credential matched, or the matched credential vanished before
    /// calculation.
    NoMatchingCredential,
    /// The search term was ambiguous; the engine never guesses.
    TooManyMatchingCredentials,
    /// The token demands user presence or a PIN before calculating.
    AuthRequired,
}

/// The time-step challenge for a wall-clock time, counted in whole
/// 30-second windows since the epoch.
pub fn challenge_of(time: u64) -> (c: u64)
    ensures
        c == time / OATH_INTERVAL_SECONDS,
{
    time / OATH_INTERVAL_SECONDS
}

/// The response signals that more directory data follows: its
/// second-to-last byte is the "more data" marker.
pub open spec fn spec_is_more(r: Seq<u8>) -> bool {
    r.len() >= 2 && r[r.len() - 2] == STATUS_MORE_DATA
}

/// What an enumeration round keeps of a response: an intermediate response
/// loses its trailing two status bytes, the final response is kept whole.
pub open spec fn spec_response_body(r: Seq<u8>) -> Seq<u8> {
    if spec_is_more(r) {
        r.take(r.len() - 2)
    } else {
        r
    }
}

/// The buffer the enumeration loop accumulates from a response sequence:
/// stripped bodies of the leading "more data" responses up to and including
/// the first response that signals no continuation, kept whole.
pub open spec fn spec_accumulate(rs: Seq<Seq<u8>>) -> Seq<u8>
    decreases rs.len(),
{
    if rs.len() == 0 {
        seq![]
    } else if !spec_is_more(rs[0]) {
        rs[0]
    } else {
        spec_response_body(rs[0]) + spec_accumulate(rs.skip(1))
    }
}

/// A complete enumeration exchange: at least one response, every response
/// but the last signals "more data", and the last does not.
pub open spec fn spec_enumeration_run(rs: Seq<Seq<u8>>) -> bool {
    &&& rs.len() >= 1
    &&& forall|i: int| 0 <= i < rs.len() - 1 ==> spec_is_more(#[trigger] rs[i])
    &&& !spec_is_more(rs[rs.len() - 1])
}

/// The stripped bodies of a sequence of responses, concatenated in order.
pub open spec fn spec_stripped_bodies(rs: Seq<Seq<u8>>) -> Seq<u8>
    decreases rs.len(),
{
    if rs.len() == 0 {
        seq![]
    } else {
        spec_stripped_bodies(rs.drop_last()) + spec_response_body(rs.last())
    }
}

/// Concatenating stripped bodies can be unfolded from the front as well as
/// from the back.
proof fn lemma_stripped_bodies_prepend(x: Seq<u8>, s: Seq<Seq<u8>>)
    ensures
        spec_stripped_bodies(seq![x] + s) == spec_response_body(x) + spec_stripped_bodies(s),
    decreases s.len(),
{
    let whole = seq![x] + s;
    if s.len() == 0 {
        assert(whole.drop_last() =~= Seq::<Seq<u8>>::empty());
        assert(whole.last() == x);
        assert(spec_stripped_bodies(Seq::<Seq<u8>>::empty()) == Seq::<u8>::empty());
        assert(spec_stripped_bodies(s) == Seq::<u8>::empty());
        assert(spec_stripped_bodies(whole) =~= spec_response_body(x) + spec_stripped_bodies(s));
    } else {
        assert(whole.drop_last() =~= seq![x] + s.drop_last());
        assert(whole.last() == s.last());
        lemma_stripped_bodies_prepend(x, s.drop_last());
        assert((spec_response_body(x) + spec_stripped_bodies(s.drop_last())) + spec_response_body(
            s.last(),
        ) =~= spec_response_body(x) + (spec_stripped_bodies(s.drop_last()) + spec_response_body(
            s.last(),
        )));
    }
}

/// Law: over a run with `k` intermediate "more data" responses — for which
/// the loop issues exactly `k` Remaining commands, one per response after the
/// first — the accumulated buffer is the concatenation, in order, of the
/// intermediate responses' stripped bodies followed by the final response.
pub proof fn lemma_accumulate_run(rs: Seq<Seq<u8>>)
    requires
        spec_enumeration_run(rs),
    ensures
        spec_accumulate(rs) == spec_stripped_bodies(rs.take(rs.len() - 1)) + rs[rs.len() - 1],
    decreases rs.len(),
{
    let n = rs.len() as int;
    if n == 1 {
        assert(rs.take(0) =~= Seq::<Seq<u8>>::empty());
        assert(spec_accumulate(rs) =~= spec_stripped_bodies(rs.take(0)) + rs[0]);
    } else {
        let tail = rs.skip(1);
        assert(spec_is_more(rs[0]));
        assert(forall|i: int| 0 <= i < tail.len() - 1 ==> spec_is_more(#[trigger] tail[i]));
        assert(!spec_is_more(tail[tail.len() - 1]));
        lemma_accumulate_run(tail);
        assert(rs.take(n - 1) =~= seq![rs[0]] + tail.take(n - 2));
        lemma_stripped_bodies_prepend(rs[0], tail.take(n - 2));
        assert(tail[tail.len() - 1] == rs[n - 1]);
        assert(spec_response_body(rs[0]) + (spec_stripped_bodies(tail.take(n - 2)) + rs[n - 1])
            =~= (spec_response_body(rs[0]) + spec_stripped_bodies(tail.take(n - 2))) + rs[n - 1]);
    }
}

/// The trailing status check an enumeration round makes on a raw response.
fn is_more_response(r: &Vec<u8>) -> (b: bool)
    ensures
        b == spec_is_more(r@),
{
    r.len() >= 2 && r[r.len() - 2] == STATUS_MORE_DATA
}

/// Enumerates the credential names stored on the token.
///
/// Issues one List command and then one Remaining command per "more data"
/// response, accumulates the frames, and decodes the directory. Whatever the
/// card answers, a returned list is exactly the decoded accumulation of a
/// complete enumeration run.
pub fn list_credentials<C: SmartCard>(card: &C) -> (r: Result<Vec<String>, Error>)
    ensures
        r matches Ok(creds) ==> exists|rs: Seq<Seq<u8>>|
            spec_enumeration_run(rs) && creds.deep_view() == spec_parse_credentials(
                spec_accumulate(rs),
            ),
{
    let list_cmd = list_apdu();
    let mut response = match card.send_and_receive(list_cmd.as_slice()) {
        Ok(r) => r,
        Err(_) => {
            return Err(Error::Yubikey);
        },
    };
    let remaining_cmd = remaining_apdu();
    let mut raw_creds: Vec<u8> = Vec::new();
    let ghost mut more_rs: Seq<Seq<u8>> = seq![];
    let mut rounds: usize = 0;
    proof {
        assert(raw_creds@ =~= spec_stripped_bodies(more_rs));
    }
    loop
        invariant
            rounds <= MAX_CONTINUATION_ROUNDS,
            forall|i: int| 0 <= i < more_rs.len() ==> spec_is_more(#[trigger] more_rs[i]),
            raw_creds@ == spec_stripped_bodies(more_rs),
        ensures
            !spec_is_more(response@),
            forall|i: int| 0 <= i < more_rs.len() ==> spec_is_more(#[trigger] more_rs[i]),
            raw_creds@ == spec_stripped_bodies(more_rs),
        decreases MAX_CONTINUATION_ROUNDS - rounds,
    {
        if !is_more_response(&response) {
            break ;
        }
        if rounds >= MAX_CONTINUATION_ROUNDS {
            return Err(Error::Yubikey);
        }
        rounds = rounds + 1;
        let ghost resp0 = response@;
        let body_len = response.len() - 2;
        response.truncate(body_len);
        proof {
            assert(response@ =~= spec_response_body(resp0));
        }
        let ghost old_raw = raw_creds@;
        raw_creds.append(&mut response);
        proof {
            let prev_rs = more_rs;
            more_rs = more_rs.push(resp0);
            assert(more_rs.drop_last() =~= prev_rs);
            assert(more_rs.last() == resp0);
            assert(raw_creds@ =~= spec_stripped_bodies(more_rs));
        }
        response = match card.send_and_receive(remaining_cmd.as_slice()) {
            Ok(r) => r,
            Err(_) => {
                return Err(Error::Yubikey);
            },
        };
    }
    let ghost run = more_rs.push(response@);
    proof {
        assert(run[run.len() - 1] == response@);
        assert(forall|i: int| 0 <= i < run.len() - 1 ==> spec_is_more(#[trigger] run[i]));
        assert(spec_enumeration_run(run));
        lemma_accumulate_run(run);
        assert(run.take(run.len() - 1) =~= more_rs);
    }
    raw_creds.append(&mut response);
    proof {
        assert(raw_creds@ =~= spec_accumulate(run));
    }
    let creds = parse_credentials(raw_creds.as_slice());
    proof {
        assert(spec_enumeration_run(run) && creds.deep_view() == spec_parse_credentials(
            spec_accumulate(run),
        ));
    }
    Ok(creds)
}

/// How a calculation response decodes: the structural checks of the engine,
/// applied in order, before any byte past the checks is touched.
pub open spec fn spec_parse_code(r: Seq<u8>) -> Result<u32, Error> {
    if r.len() == 0 {
        Err(Error::Yubikey)
    } else if r.len() >= 2 && r[0] == STATUS_ERROR_SW1 && r[1] == STATUS_AUTH_REQUIRED_SW2 {
        Err(Error::AuthRequired)
    } else if r.len() >= 2 && r[0] == STATUS_ERROR_SW1 && r[1] == STATUS_NO_SUCH_OBJECT_SW2 {
        Err(Error::NoMatchingCredential)
    } else if r[0] != TAG_RESPONSE_FULL && r[0] != TAG_RESPONSE_TRUNCATED {
        Err(Error::Yubikey)
    } else if r.len() < 7 {
        Err(Error::Yubikey)
    } else {
        Ok(crate::apdu::spec_u32_from_be_bytes(r[3], r[4], r[5], r[6]))
    }
}

/// Law: a response opening with the "authentication required" status pair
/// always decodes to that error, whatever trails it; likewise one opening
/// with the "no such object" pair always reports the vanished credential.
pub proof fn lemma_status_prefix_decides(r: Seq<u8>)
    ensures
        r.len() >= 2 && r[0] == STATUS_ERROR_SW1 && r[1] == STATUS_AUTH_REQUIRED_SW2
            ==> spec_parse_code(r) == Err::<u32, Error>(Error::AuthRequired),
        r.len() >= 2 && r[0] == STATUS_ERROR_SW1 && r[1] == STATUS_NO_SUCH_OBJECT_SW2
            ==> spec_parse_code(r) == Err::<u32, Error>(Error::NoMatchingCredential),
{
}

/// Law: a response shorter than 7 bytes is rejected as malformed — even one
/// that opens with a valid response tag — never read out of bounds.
pub proof fn lemma_short_response_rejected(r: Seq<u8>)
    requires
        r.len() < 7,
        r.len() >= 1 ==> r[0] == TAG_RESPONSE_FULL || r[0] == TAG_RESPONSE_TRUNCATED,
    ensures
        spec_parse_code(r) == Err::<u32, Error>(Error::Yubikey),
{
}

/// Decodes a calculation response: validates emptiness, the two error status
/// pairs, the leading response tag and the minimum length, then extracts the
/// big-endian code from bytes 3 through 6.
pub fn parse_code_response(rapdu: &[u8]) -> (r: Result<u32, Error>)
    ensures
        r == spec_parse_code(rapdu@),
{
    let n = rapdu.len();
    if n == 0 {
        return Err(Error::Yubikey);
    }
    if n >= 2 && rapdu[0] == STATUS_ERROR_SW1 && rapdu[1] == STATUS_AUTH_REQUIRED_SW2 {
        return Err(Error::AuthRequired);
    }
    if n >= 2 && rapdu[0] == STATUS_ERROR_SW1 && rapdu[1] == STATUS_NO_SUCH_OBJECT_SW2 {
        return Err(Error::NoMatchingCredential);
    }
    if rapdu[0] != TAG_RESPONSE_FULL && rapdu[0] != TAG_RESPONSE_TRUNCATED {
        return Err(Error::Yubikey);
    }
    if n < 7 {
        return Err(Error::Yubikey);
    }
    Ok(crate::apdu::u32_from_be_bytes(rapdu[3], rapdu[4], rapdu[5], rapdu[6]))
}

/// Picks the single credential the search term resolves to: exactly one
/// match succeeds, zero and several are the two distinct lookup errors.
pub fn resolve_credential(creds: &Vec<String>, term: &str) -> (r: Result<String, Error>)
    ensures
        ({
            let m = spec_matching(creds.deep_view(), term@);
            match r {
                Ok(name) => m.len() == 1 && name@ == m[0],
                Err(e) => (e == Error::NoMatchingCredential && m.len() == 0) || (e
                    == Error::TooManyMatchingCredentials && m.len() >= 2),
            }
        }),
{
    let mut matched = filter_matching(creds, term);
    if matched.len() == 0 {
        Err(Error::NoMatchingCredential)
    } else if matched.len() == 1 {
        match matched.pop() {
            Some(name) => Ok(name),
            None => Err(Error::NoMatchingCredential),
        }
    } else {
        Err(Error::TooManyMatchingCredentials)
    }
}

/// Calculates the one-time code for one resolved credential name at the
/// time step of `time`.
///
/// A name whose UTF-8 encoding cannot fit the command's one-byte length
/// fields is rejected as a protocol error before anything is sent. The
/// response is validated by [`parse_code_response`] before its bytes are
/// touched.
pub fn calculate<C: SmartCard>(card: &C, cred: &str, time: u64) -> (r: Result<u32, Error>)
    ensures
        vstd::utf8::encode_utf8(cred@).len() > MAX_NAME_BYTES ==> r == Err::<u32, Error>(
            Error::Yubikey,
        ),
        r != Err::<u32, Error>(Error::TooManyMatchingCredentials),
{
    let name = cred.as_bytes();
    if name.len() > MAX_NAME_BYTES {
        return Err(Error::Yubikey);
    }
    let challenge = challenge_of(time);
    let command = calculate_apdu(name, challenge);
    let rapdu = match card.send_and_receive(command.as_slice()) {
        Ok(r) => r,
        Err(_) => {
            return Err(Error::Yubikey);
        },
    };
    parse_code_response(rapdu.as_slice())
}

/// The single entry point: enumerates the token's credentials, resolves the
/// search term to exactly one of them, and calculates its code.
///
/// A code is only ever returned after an enumeration run whose decoded
/// directory held exactly one credential matching the term; an ambiguous
/// term is reported after a run holding at least two.
pub fn calculate_fuzzy<C: SmartCard>(card: &C, search_term: &str, time: u64) -> (r: Result<
    u32,
    Error,
>)
    ensures
        r matches Ok(code) ==> exists|rs: Seq<Seq<u8>>|
            spec_enumeration_run(rs) && spec_matching(
                spec_parse_credentials(spec_accumulate(rs)),
                search_term@,
            ).len() == 1,
        r == Err::<u32, Error>(Error::TooManyMatchingCredentials) ==> exists|rs: Seq<Seq<u8>>|
            spec_enumeration_run(rs) && spec_matching(
                spec_parse_credentials(spec_accumulate(rs)),
                search_term@,
            ).len() >= 2,
{
    let creds = match list_credentials(card) {
        Ok(c) => c,
        Err(_) => {
            return Err(Error::Yubikey);
        },
    };
    let ghost run = choose|rs: Seq<Seq<u8>>|
        spec_enumeration_run(rs) && creds.deep_view() == spec_parse_credentials(
            spec_accumulate(rs),
        );
    match resolve_credential(&creds, search_term) {
        Ok(name) => {
            proof {
                assert(spec_enumeration_run(run) && spec_matching(
                    spec_parse_credentials(spec_accumulate(run)),
                    search_term@,
                ).len() == 1);
            }
            calculate(card, name.as_str(), time)
        },
        Err(e) => {
            proof {
                if e == Error::TooManyMatchingCredentials {
                    assert(spec_enumeration_run(run) && spec_matching(
                        spec_parse_credentials(spec_accumulate(run)),
                        search_term@,
                    ).len() >= 2);
                }
            }
            Err(e)
        },
    }
}

} // verus!
