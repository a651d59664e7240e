//! The signature by which a destination knows the router.

use crate::crypto::{
    base64_standard, encode_standard, from_standard, hmac_digest, hmac_sha256, is_code_char,
};
use crate::number::{int_text, written_int};
use vstd::prelude::*;
use vstd::string::StringExecFns;
use vstd::utf8::encode_utf8;

verus! {

/// The bytes that the signature of a delivery is made of: the parts of the delivery with dots
/// between them, and the webhook as it came.
pub open spec fn delivery_content(
    timestamp: Seq<char>,
    delivery_id: Seq<char>,
    event_id: Seq<char>,
    destination: Seq<char>,
    attempt: int,
    body: Seq<u8>,
) -> Seq<u8> {
    encode_utf8(timestamp) + seq![46u8] + encode_utf8(delivery_id) + seq![46u8] + encode_utf8(
        event_id,
    ) + seq![46u8] + encode_utf8(destination) + seq![46u8] + encode_utf8(int_text(attempt)) + seq![
        46u8,
    ] + body
}

/// The signature of a delivery.
pub open spec fn delivery_signature(secret: Seq<char>, content: Seq<u8>) -> Seq<char> {
    "v1,"@ + base64_standard(hmac_sha256(encode_utf8(secret), content))
}

/// The bytes that the signature of a delivery is made of.
pub fn content_to_sign(
    timestamp: &str,
    delivery_id: &str,
    event_id: &str,
    destination: &str,
    attempt: i32,
    body: &[u8],
) -> (r: Vec<u8>)
    ensures
        r@ == delivery_content(
            timestamp@,
            delivery_id@,
            event_id@,
            destination@,
            attempt as int,
            body@,
        ),
        r@.len() == encode_utf8(timestamp@).len() + encode_utf8(delivery_id@).len() + encode_utf8(
            event_id@,
        ).len() + encode_utf8(destination@).len() + encode_utf8(int_text(attempt as int)).len()
            + body@.len() + 5,
        r@.skip(r@.len() - body@.len()) == body@,
{
    let attempt_text = written_int(attempt as i64);
    let mut content: Vec<u8> = Vec::new();
    content.extend_from_slice(timestamp.as_bytes());
    content.push(46);
    content.extend_from_slice(delivery_id.as_bytes());
    content.push(46);
    content.extend_from_slice(event_id.as_bytes());
    content.push(46);
    content.extend_from_slice(destination.as_bytes());
    content.push(46);
    content.extend_from_slice(attempt_text.as_str().as_bytes());
    content.push(46);
    content.extend_from_slice(body);
    assert(content@ =~= delivery_content(
        timestamp@,
        delivery_id@,
        event_id@,
        destination@,
        attempt as int,
        body@,
    ));
    assert(content@.skip(content@.len() - body@.len()) =~= body@);
    content
}

/// Signs a delivery. A receiver that takes the prefix off and decodes the rest has the HMAC of
/// the delivery's parts under the shared secret. A signature is 47 characters that a header may
/// hold.
pub fn sign_delivery(
    secret: &str,
    timestamp: &str,
    delivery_id: &str,
    event_id: &str,
    destination: &str,
    attempt: i32,
    body: &[u8],
) -> (r: String)
    ensures
        r@ == delivery_signature(
            secret@,
            delivery_content(
                timestamp@,
                delivery_id@,
                event_id@,
                destination@,
                attempt as int,
                body@,
            ),
        ),
        "v1,"@.is_prefix_of(r@),
        from_standard(r@.skip("v1,"@.len() as int)) == Some(
            hmac_sha256(
                encode_utf8(secret@),
                delivery_content(
                    timestamp@,
                    delivery_id@,
                    event_id@,
                    destination@,
                    attempt as int,
                    body@,
                ),
            ),
        ),
        r@.len() == 47,
        forall|i: int| 0 <= i < r@.len() ==> '!' <= #[trigger] r@[i] <= '~',
{
    let content: Vec<u8> = content_to_sign(
        timestamp,
        delivery_id,
        event_id,
        destination,
        attempt,
        body,
    );
    let digest: Vec<u8> = hmac_digest(secret.as_bytes(), content.as_slice());
    let code: String = encode_standard(digest.as_slice());
    let signature = "v1,".to_owned().concat(code.as_str());
    assert(signature@.take("v1,"@.len() as int) =~= "v1,"@);
    assert(signature@.skip("v1,"@.len() as int) =~= code@);
    proof {
        reveal_strlit("v1,");
        assert forall|i: int| 0 <= i < signature@.len() implies '!' <= #[trigger] signature@[i]
            <= '~' by {
            if i >= 3 {
                assert(is_code_char(code@[i - 3]));
            }
        }
    }
    signature
}

} // verus!
