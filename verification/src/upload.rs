//! Decoding of uploaded image payloads: either a plain base64 text or a
//! data URL (`scheme:...;base64,<payload>`), split on the first comma.

use vstd::prelude::*;

use base64::Engine;

verus! {

/// What the standard base64 alphabet decodes `s` to; `None` on malformed
/// input.
pub uninterp spec fn b64_decode_spec(s: Seq<char>) -> Option<Seq<u8>>;

/// Relies on base64's `Engine::decode` with the `STANDARD` engine: the
/// result depends on the input characters alone, and malformed input is
/// rejected.
#[verifier::external_body]
fn b64_decode(s: &str) -> (r: Result<Vec<u8>, String>)
    ensures
        r matches Ok(b) ==> b64_decode_spec(s@) == Some(b@),
        r is Err ==> b64_decode_spec(s@) is None,
{
    base64::engine::general_purpose::STANDARD.decode(s).map_err(
        |e| format!("Failed to decode base64 data: {}", e),
    )
}

/// Whether the upload text is a data URL.
pub open spec fn is_data_url(s: Seq<char>) -> bool {
    s.len() >= 5 && s.take(5) == "data:"@
}

/// Index of the first comma at or after `from`; -1 when there is none.
pub open spec fn first_comma(s: Seq<char>, from: int) -> int
    decreases s.len() - from,
{
    if from < 0 || from >= s.len() {
        -1
    } else if s[from] == ',' {
        from
    } else {
        first_comma(s, from + 1)
    }
}

/// The base64 payload of an upload: for a data URL, everything after the
/// first comma (`None` when it has no comma); otherwise the whole text.
pub open spec fn payload_part(s: Seq<char>) -> Option<Seq<char>> {
    if is_data_url(s) {
        let k = first_comma(s, 0);
        if k < 0 {
            None
        } else {
            Some(s.skip(k + 1))
        }
    } else {
        Some(s)
    }
}

/// A comma-free stretch does not move the first comma.
proof fn lemma_first_comma_step(s: Seq<char>, from: int, upto: int)
    requires
        0 <= from <= upto <= s.len(),
        forall|j: int| from <= j < upto ==> s[j] != ',',
    ensures
        first_comma(s, from) == first_comma(s, upto),
    decreases upto - from,
{
    if from < upto {
        assert(s[from] != ',');
        lemma_first_comma_step(s, from + 1, upto);
    }
}

/// Decode an uploaded image from plain base64 text or a data URL.
/// Fails exactly when a data URL lacks a payload segment or the base64
/// payload is malformed; no store interaction happens here.
pub fn decode_image_for_processing(image_data: &str) -> (r: Result<Vec<u8>, String>)
    ensures
        r matches Ok(b) ==> payload_part(image_data@) matches Some(p) && b64_decode_spec(p)
            == Some(b@),
        r is Err ==> payload_part(image_data@) is None || (payload_part(image_data@) matches Some(
            p,
        ) && b64_decode_spec(p) is None),
{
    let n = image_data.unicode_len();
    let is_data = n >= 5 && image_data.get_char(0) == 'd' && image_data.get_char(1) == 'a'
        && image_data.get_char(2) == 't' && image_data.get_char(3) == 'a' && image_data.get_char(4)
        == ':';
    proof {
        reveal_strlit("data:");
        if n >= 5 {
            if image_data@[0] == 'd' && image_data@[1] == 'a' && image_data@[2] == 't'
                && image_data@[3] == 'a' && image_data@[4] == ':' {
                assert(image_data@.take(5) =~= "data:"@);
            } else {
                assert(image_data@.take(5) != "data:"@) by {
                    if image_data@.take(5) == "data:"@ {
                        assert(image_data@[0] == image_data@.take(5)[0]);
                        assert(image_data@[1] == image_data@.take(5)[1]);
                        assert(image_data@[2] == image_data@.take(5)[2]);
                        assert(image_data@[3] == image_data@.take(5)[3]);
                        assert(image_data@[4] == image_data@.take(5)[4]);
                    }
                }
            }
        }
        assert(is_data == is_data_url(image_data@));
    }
    if is_data {
        let mut i: usize = 0;
        let mut found = false;
        while i < n && !found
            invariant
                0 <= i <= n,
                n == image_data@.len(),
                forall|j: int| 0 <= j < i ==> image_data@[j] != ',',
                found ==> i < n && image_data@[i as int] == ',',
            decreases n - i + if found {
                0int
            } else {
                1int
            },
        {
            if image_data.get_char(i) == ',' {
                found = true;
            } else {
                i += 1;
            }
        }
        if !found {
            proof {
                lemma_first_comma_step(image_data@, 0, n as int);
                assert(first_comma(image_data@, 0) == -1);
            }
            return Err("Invalid data URL format".to_owned());
        }
        proof {
            lemma_first_comma_step(image_data@, 0, i as int);
            assert(first_comma(image_data@, i as int) == i);
        }
        let payload = image_data.substring_char(i + 1, n);
        proof {
            assert(payload@ =~= image_data@.skip(i + 1));
        }
        b64_decode(payload)
    } else {
        b64_decode(image_data)
    }
}

} // verus!
