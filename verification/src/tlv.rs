//! TLV decoding of the accumulated credential directory.
//!
//! The directory is a run of entries, each: the name-list tag, one length
//! byte `L`, one algorithm byte (skipped), and `L - 1` bytes of UTF-8 name.
//! Decoding is tolerant: at the first byte that does not open a readable
//! entry — wrong tag, a length that would run past the buffer, or name bytes
//! that are not valid UTF-8 — it stops and returns what was parsed so far.

use vstd::prelude::*;
use vstd::utf8::decode_utf8;
use vstd::utf8::valid_utf8;

use crate::apdu::TAG_NAME_LIST;

verus! {

/// A readable directory entry stands at the head of `buf`: the name-list
/// tag, a length byte of at least 1, enough bytes for the algorithm byte and
/// the name, and name bytes that are valid UTF-8.
pub open spec fn spec_entry_readable(buf: Seq<u8>) -> bool {
    &&& buf.len() >= 2
    &&& buf[0] == TAG_NAME_LIST
    &&& buf[1] >= 1
    &&& buf.len() >= buf[1] + 2
    &&& valid_utf8(buf.subrange(3, buf[1] + 2))
}

/// The name bytes of the entry at the head of `buf`.
pub open spec fn spec_entry_name_bytes(buf: Seq<u8>) -> Seq<u8>
    recommends
        spec_entry_readable(buf),
{
    buf.subrange(3, buf[1] + 2)
}

/// The credential names decoded from `buf`, in order, up to the first byte
/// that does not open a readable entry.
pub open spec fn spec_parse_credentials(buf: Seq<u8>) -> Seq<Seq<char>>
    decreases buf.len(),
{
    if !spec_entry_readable(buf) {
        seq![]
    } else {
        seq![decode_utf8(spec_entry_name_bytes(buf))] + spec_parse_credentials(
            buf.skip(buf[1] + 2),
        )
    }
}

/// Relies on `String::from_utf8`: it returns `Ok` exactly on valid UTF-8
/// input, and the returned string holds the decoded characters of the input.
#[verifier::external_body]
fn bytes_to_string(bytes: Vec<u8>) -> (r: Option<String>)
    ensures
        r matches Some(s) ==> valid_utf8(bytes@) && s@ == decode_utf8(bytes@),
        r is None ==> !valid_utf8(bytes@),
{
    String::from_utf8(bytes).ok()
}

/// Decodes the credential directory accumulated from the token.
///
/// Returns exactly the names of the leading run of readable entries;
/// malformed trailing bytes are tolerated, not fatal.
pub fn parse_credentials(rapdu: &[u8]) -> (creds: Vec<String>)
    ensures
        creds.deep_view() == spec_parse_credentials(rapdu@),
{
    let buf_len = rapdu.len();
    let mut creds: Vec<String> = Vec::new();
    let mut pos: usize = 0;
    proof {
        assert(rapdu@.skip(0) =~= rapdu@);
        assert(creds.deep_view() =~= Seq::<Seq<char>>::empty());
    }
    loop
        invariant
            pos <= buf_len == rapdu@.len(),
            spec_parse_credentials(rapdu@) == creds.deep_view() + spec_parse_credentials(
                rapdu@.skip(pos as int),
            ),
        ensures
            creds.deep_view() == spec_parse_credentials(rapdu@),
        decreases buf_len - pos,
    {
        let ghost rest = rapdu@.skip(pos as int);
        proof {
            assert(forall|i: int| 0 <= i < rest.len() ==> rest[i] == rapdu@[pos + i]);
        }
        if buf_len - pos < 2 || rapdu[pos] != TAG_NAME_LIST {
            assert(!spec_entry_readable(rest));
            break ;
        }
        let len_byte = rapdu[pos + 1];
        if len_byte < 1 || buf_len - pos - 2 < len_byte as usize {
            assert(!spec_entry_readable(rest));
            break ;
        }
        let name_end = pos + 2 + len_byte as usize;
        let name_slice = vstd::slice::slice_subrange(rapdu, pos + 3, name_end);
        let name_bytes = vstd::slice::slice_to_vec(name_slice);
        proof {
            assert(name_bytes@ =~= rest.subrange(3, rest[1] + 2));
        }
        match bytes_to_string(name_bytes) {
            Some(name) => {
                assert(spec_entry_readable(rest));
                let ghost old_creds = creds.deep_view();
                creds.push(name);
                pos = name_end;
                proof {
                    assert(creds.deep_view() =~= old_creds + seq![name@]);
                    assert(rest.skip(rest[1] + 2) =~= rapdu@.skip(pos as int));
                    assert(creds.deep_view() + spec_parse_credentials(rapdu@.skip(pos as int))
                        =~= old_creds + spec_parse_credentials(rest));
                }
            },
            None => {
                assert(!spec_entry_readable(rest));
                break ;
            },
        }
    }
    proof {
        assert(creds.deep_view() + spec_parse_credentials(rapdu@.skip(pos as int)) =~= creds.deep_view());
    }
    creds
}

/// One encoded directory entry: tag, length byte covering the algorithm byte
/// and the name, the algorithm byte, then the name bytes.
pub open spec fn spec_encode_entry(alg: u8, name: Seq<u8>) -> Seq<u8> {
    seq![TAG_NAME_LIST, (name.len() + 1) as u8, alg] + name
}

/// Back-to-back encoded directory entries, each an algorithm byte paired
/// with its name bytes.
pub open spec fn spec_encode_entries(entries: Seq<(u8, Seq<u8>)>) -> Seq<u8>
    decreases entries.len(),
{
    if entries.len() == 0 {
        seq![]
    } else {
        spec_encode_entry(entries[0].0, entries[0].1) + spec_encode_entries(entries.skip(1))
    }
}

/// An entry that can be encoded and decoded faithfully: the name fits the
/// one-byte length field and is valid UTF-8.
pub open spec fn spec_valid_entry(e: (u8, Seq<u8>)) -> bool {
    e.1.len() <= 254 && valid_utf8(e.1)
}

/// Law: the parser recovers an encoded directory exactly. For any sequence
/// of well-formed entries, encoded back to back and followed by any bytes
/// that do not open a readable entry (no bytes at all, a wrong tag, a length
/// running past the end, or invalid UTF-8), parsing yields precisely the
/// entries' decoded names, in order.
pub proof fn lemma_parse_encoded_entries_with_trailer(entries: Seq<(u8, Seq<u8>)>, trailer: Seq<u8>)
    requires
        forall|i: int| 0 <= i < entries.len() ==> spec_valid_entry(#[trigger] entries[i]),
        !spec_entry_readable(trailer),
    ensures
        spec_parse_credentials(spec_encode_entries(entries) + trailer) == entries.map_values(
            |e: (u8, Seq<u8>)| decode_utf8(e.1),
        ),
    decreases entries.len(),
{
    let buf = spec_encode_entries(entries) + trailer;
    if entries.len() == 0 {
        assert(buf =~= trailer);
        assert(entries.map_values(|e: (u8, Seq<u8>)| decode_utf8(e.1)) =~= Seq::<
            Seq<char>,
        >::empty());
    } else {
        let alg = entries[0].0;
        let name = entries[0].1;
        let entry_len = name.len() + 3;
        assert(spec_encode_entry(alg, name).len() == entry_len);
        assert(forall|i: int|
            0 <= i < spec_encode_entry(alg, name).len() ==> buf[i] == spec_encode_entry(
                alg,
                name,
            )[i]);
        assert(buf[1] == name.len() + 1);
        assert(buf.subrange(3, buf[1] + 2) =~= name);
        assert(spec_entry_readable(buf));
        assert(spec_entry_name_bytes(buf) == name);
        assert(buf.skip(buf[1] + 2) =~= spec_encode_entries(entries.skip(1)) + trailer);
        lemma_parse_encoded_entries_with_trailer(entries.skip(1), trailer);
        assert(entries.map_values(|e: (u8, Seq<u8>)| decode_utf8(e.1)) =~= seq![
            decode_utf8(name),
        ] + entries.skip(1).map_values(|e: (u8, Seq<u8>)| decode_utf8(e.1)));
    }
}

/// Law: for any directory of well-formed entries encoded back to back, the
/// parser recovers exactly the entries' decoded names, in order.
pub proof fn lemma_parse_encoded_entries(entries: Seq<(u8, Seq<u8>)>)
    requires
        forall|i: int| 0 <= i < entries.len() ==> spec_valid_entry(#[trigger] entries[i]),
    ensures
        spec_parse_credentials(spec_encode_entries(entries)) == entries.map_values(
            |e: (u8, Seq<u8>)| decode_utf8(e.1),
        ),
{
    lemma_parse_encoded_entries_with_trailer(entries, Seq::<u8>::empty());
    assert(spec_encode_entries(entries) + Seq::<u8>::empty() =~= spec_encode_entries(entries));
}

} // verus!
