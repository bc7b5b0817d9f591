//! Authentication by a WS-Security header.

use vstd::prelude::*;
use vstd::string::StringExecFns;
use vstd::utf8::encode_utf8;
use crate::bytes::append_bytes;
use crate::outside::{
    base64_text, format_rfc3339, random_nonce, rfc3339, sha1, sha1_digest, to_base64, utc_now,
};
use crate::text::{
    chars_of, contains, has_suffix, law_replaced_first, lemma_longer_text_ends_alike,
    lemma_value_stands_between, occurs, occurs_at, replace_first, replaced_first,
};

verus! {

/// A character as it stands in XML text or in an attribute.
pub open spec fn escaped_char(c: char) -> Seq<char> {
    if c == '&' {
        "&amp;"@
    } else if c == '<' {
        "&lt;"@
    } else if c == '>' {
        "&gt;"@
    } else if c == '"' {
        "&quot;"@
    } else if c == '\'' {
        "&apos;"@
    } else {
        seq![c]
    }
}

/// A text as it stands in XML text or in an attribute.
pub open spec fn escaped(s: Seq<char>) -> Seq<char>
    decreases s.len(),
{
    if s.len() == 0 {
        s
    } else {
        escaped_char(s[0]) + escaped(s.skip(1))
    }
}

proof fn lemma_escaped_push(s: Seq<char>, c: char)
    ensures
        escaped(s.push(c)) == escaped(s) + escaped_char(c),
    decreases s.len(),
{
    if s.len() == 0 {
        assert(s.push(c).skip(1) =~= s);
        assert(escaped_char(c) + s =~= s + escaped_char(c));
    } else {
        lemma_escaped_push(s.skip(1), c);
        assert(s.push(c).skip(1) =~= s.skip(1).push(c));
        assert(escaped_char(s[0]) + (escaped(s.skip(1)) + escaped_char(c)) =~= escaped_char(s[0])
            + escaped(s.skip(1)) + escaped_char(c));
    }
}

/// Replaces the characters that have a meaning in XML.
pub fn xml_escape(input: &str) -> (out: String)
    ensures
        out@ == escaped(input@),
{
    let chars = chars_of(input);
    let len = chars.len();
    let mut out = String::new();
    let mut i: usize = 0;
    assert(input@.take(0) =~= Seq::empty());
    while i < len
        invariant
            chars@ == input@,
            len == input@.len(),
            i <= len,
            out@ == escaped(input@.take(i as int)),
        decreases len - i,
    {
        let c = chars[i];
        proof {
            lemma_escaped_push(input@.take(i as int), c);
            assert(input@.take(i + 1) =~= input@.take(i as int).push(c));
        }
        if c == '&' {
            out.append("&amp;");
        } else if c == '<' {
            out.append("&lt;");
        } else if c == '>' {
            out.append("&gt;");
        } else if c == '"' {
            out.append("&quot;");
        } else if c == '\'' {
            out.append("&apos;");
        } else {
            let ghost before = out@;
            out.push(c);
            assert(before.push(c) =~= before + seq![c]);
        }
        i += 1;
    }
    assert(input@.take(len as int) =~= input@);
    out
}

/// An escaped text holds no character that could begin or end a tag or an
/// attribute's value.
pub proof fn law_escaped_is_inert(s: Seq<char>)
    ensures
        forall|i: int|
            0 <= i < escaped(s).len() ==> {
                let c = #[trigger] escaped(s)[i];
                c != '<' && c != '>' && c != '"' && c != '\''
            },
    decreases s.len(),
{
    if s.len() > 0 {
        lemma_entities();
        law_escaped_is_inert(s.skip(1));
        let head = escaped_char(s[0]);
        let rest = escaped(s.skip(1));
        assert forall|i: int| 0 <= i < escaped(s).len() implies {
            let c = #[trigger] escaped(s)[i];
            c != '<' && c != '>' && c != '"' && c != '\''
        } by {
            if i < head.len() {
                assert(escaped(s)[i] == head[i]);
            } else {
                assert(escaped(s)[i] == rest[i - head.len()]);
            }
        }
    }
}

proof fn lemma_entities()
    ensures
        "&amp;"@ == seq!['&', 'a', 'm', 'p', ';'],
        "&lt;"@ == seq!['&', 'l', 't', ';'],
        "&gt;"@ == seq!['&', 'g', 't', ';'],
        "&quot;"@ == seq!['&', 'q', 'u', 'o', 't', ';'],
        "&apos;"@ == seq!['&', 'a', 'p', 'o', 's', ';'],
{
    reveal_strlit("&amp;");
    reveal_strlit("&lt;");
    reveal_strlit("&gt;");
    reveal_strlit("&quot;");
    reveal_strlit("&apos;");
    assert("&amp;"@ =~= seq!['&', 'a', 'm', 'p', ';']);
    assert("&lt;"@ =~= seq!['&', 'l', 't', ';']);
    assert("&gt;"@ =~= seq!['&', 'g', 't', ';']);
    assert("&quot;"@ =~= seq!['&', 'q', 'u', 'o', 't', ';']);
    assert("&apos;"@ =~= seq!['&', 'a', 'p', 'o', 's', ';']);
}

/// Different texts stay different when they are escaped.
pub proof fn law_escaped_is_faithful(a: Seq<char>, b: Seq<char>)
    requires
        escaped(a) == escaped(b),
    ensures
        a == b,
    decreases a.len(),
{
    lemma_entities();
    if a.len() == 0 {
        if b.len() > 0 {
            assert(escaped(b).len() >= escaped_char(b[0]).len());
        }
        assert(a =~= b);
    } else if b.len() == 0 {
        assert(escaped(a).len() >= escaped_char(a[0]).len());
    } else {
        let x = escaped(a);
        let ha = escaped_char(a[0]);
        let hb = escaped_char(b[0]);
        let ra = escaped(a.skip(1));
        let rb = escaped(b.skip(1));
        assert(x == ha + ra);
        assert(x == hb + rb);
        assert(x[0] == ha[0] && x[0] == hb[0]);
        if ha.len() > 1 && hb.len() > 1 {
            assert(x[1] == ha[1] && x[1] == hb[1]);
            assert(x[2] == ha[2] && x[2] == hb[2]);
        }
        assert(a[0] == b[0]);
        assert(ra =~= x.skip(ha.len() as int));
        assert(rb =~= x.skip(hb.len() as int));
        law_escaped_is_faithful(a.skip(1), b.skip(1));
        assert(a =~= seq![a[0]] + a.skip(1));
        assert(b =~= seq![b[0]] + b.skip(1));
    }
}

/// The bytes whose digest proves knowledge of the password.
pub open spec fn digest_input(
    nonce: Seq<u8>,
    created: Seq<char>,
    password: Seq<char>,
) -> Seq<u8> {
    nonce + encode_utf8(created) + encode_utf8(password)
}

/// The security header.
pub open spec fn wsse_header(
    username: Seq<char>,
    password: Seq<char>,
    created: Seq<char>,
    nonce: Seq<u8>,
) -> Seq<char> {
    "<s:Header><wsse:Security s:mustUnderstand=\"1\" xmlns:wsse=\"http://docs.oasis-open.org/wss/2004/01/oasis-200401-wss-wssecurity-secext-1.0.xsd\" xmlns:wsu=\"http://docs.oasis-open.org/wss/2004/01/oasis-200401-wss-wssecurity-utility-1.0.xsd\"><wsse:UsernameToken><wsse:Username>"@
        + escaped(username)
        + "</wsse:Username><wsse:Password Type=\"http://docs.oasis-open.org/wss/2004/01/oasis-200401-wss-username-token-profile-1.0#PasswordDigest\">"@
        + base64_text(sha1_digest(digest_input(nonce, created, password)))
        + "</wsse:Password><wsse:Nonce EncodingType=\"http://docs.oasis-open.org/wss/2004/01/oasis-200401-wss-soap-message-security-1.0#Base64Binary\">"@
        + base64_text(nonce) + "</wsse:Nonce><wsu:Created>"@ + created
        + "</wsu:Created></wsse:UsernameToken></wsse:Security></s:Header>"@
}

/// The envelope with the security header in front of its body.
pub open spec fn secured(
    envelope: Seq<char>,
    username: Seq<char>,
    password: Seq<char>,
    created: Seq<char>,
    nonce: Seq<u8>,
) -> Seq<char> {
    replaced_first(
        envelope,
        "<s:Body>"@,
        wsse_header(username, password, created, nonce) + "<s:Body>"@,
    )
}

/// Puts a security header, made from the moment `created` and from `nonce`, in
/// front of the envelope's body.
pub fn add_wsse_header_with(
    envelope: &str,
    username: &str,
    password: &str,
    created: &str,
    nonce: &[u8],
) -> (outcome: Result<String, String>)
    requires
        nonce@.len() <= usize::MAX / 4,
    ensures
        match outcome {
            Ok(text) => {
                &&& occurs(envelope@, "<s:Body>"@)
                &&& text@ == secured(envelope@, username@, password@, created@, nonce@)
            },
            Err(reason) => {
                &&& !occurs(envelope@, "<s:Body>"@)
                &&& reason@ == "soap envelope does not contain <s:Body>"@
            },
        },
{
    proof {
        reveal_strlit("<s:Body>");
    }
    if !contains(envelope, "<s:Body>") {
        return Err("soap envelope does not contain <s:Body>".to_owned());
    }
    let mut input: Vec<u8> = Vec::new();
    append_bytes(&mut input, nonce);
    append_bytes(&mut input, created.as_bytes());
    append_bytes(&mut input, password.as_bytes());
    assert(input@ =~= digest_input(nonce@, created@, password@));
    let digest = sha1(input.as_slice());
    let mut header =
        "<s:Header><wsse:Security s:mustUnderstand=\"1\" xmlns:wsse=\"http://docs.oasis-open.org/wss/2004/01/oasis-200401-wss-wssecurity-secext-1.0.xsd\" xmlns:wsu=\"http://docs.oasis-open.org/wss/2004/01/oasis-200401-wss-wssecurity-utility-1.0.xsd\"><wsse:UsernameToken><wsse:Username>".to_owned();
    header.append(xml_escape(username).as_str());
    header.append(
        "</wsse:Username><wsse:Password Type=\"http://docs.oasis-open.org/wss/2004/01/oasis-200401-wss-username-token-profile-1.0#PasswordDigest\">",
    );
    header.append(to_base64(digest.as_slice()).as_str());
    header.append(
        "</wsse:Password><wsse:Nonce EncodingType=\"http://docs.oasis-open.org/wss/2004/01/oasis-200401-wss-soap-message-security-1.0#Base64Binary\">",
    );
    header.append(to_base64(nonce).as_str());
    header.append("</wsse:Nonce><wsu:Created>");
    header.append(created);
    header.append("</wsu:Created></wsse:UsernameToken></wsse:Security></s:Header>");
    header.append("<s:Body>");
    Ok(replace_first(envelope, "<s:Body>", header.as_str()))
}

/// The text is the envelope, secured at the moment `nanos` with the nonce.
pub open spec fn is_secured(
    text: Seq<char>,
    envelope: Seq<char>,
    username: Seq<char>,
    password: Seq<char>,
    nanos: i128,
    nonce: Seq<u8>,
) -> bool {
    &&& nonce.len() == 20
    &&& rfc3339(nanos as int) matches Ok(created) && text == secured(
        envelope,
        username,
        password,
        created,
        nonce,
    )
}

/// The reason is that the moment `nanos` cannot be written, which is no moment from
/// the Unix epoch to the end of the year 9999.
pub open spec fn is_stamp_failure(reason: Seq<char>, nanos: i128) -> bool {
    &&& !(0 <= nanos < 253_402_300_800_000_000_000)
    &&& rfc3339(nanos as int) matches Err(detail) && reason
        == "failed to format wsse created timestamp: "@ + detail
}

/// Puts a security header in front of the envelope's body, made from the present
/// moment and a fresh nonce of twenty bytes.
pub fn add_wsse_header(envelope: &str, username: &str, password: &str) -> (outcome: Result<
    String,
    String,
>)
    ensures
        !occurs(envelope@, "<s:Body>"@) ==> (outcome matches Err(reason) && reason@
            == "soap envelope does not contain <s:Body>"@),
        occurs(envelope@, "<s:Body>"@) && outcome is Ok ==> exists|nanos: i128, nonce: Seq<u8>|
            #[trigger] is_secured(
                outcome->Ok_0@,
                envelope@,
                username@,
                password@,
                nanos,
                nonce,
            ),
        occurs(envelope@, "<s:Body>"@) && outcome is Err ==> exists|nanos: i128| #[trigger]
            is_stamp_failure(outcome->Err_0@, nanos),
{
    proof {
        reveal_strlit("<s:Body>");
    }
    if !contains(envelope, "<s:Body>") {
        return Err("soap envelope does not contain <s:Body>".to_owned());
    }
    let nanos = utc_now();
    match format_rfc3339(nanos) {
        Ok(created) => {
            let nonce = random_nonce();
            let outcome = add_wsse_header_with(
                envelope,
                username,
                password,
                created.as_str(),
                nonce.as_slice(),
            );
            assert(outcome is Ok);
            assert(is_secured(
                outcome->Ok_0@,
                envelope@,
                username@,
                password@,
                nanos,
                nonce@,
            ));
            outcome
        },
        Err(detail) => {
            let mut reason = "failed to format wsse created timestamp: ".to_owned();
            reason.append(detail.as_str());
            let outcome: Result<String, String> = Err(reason);
            assert(is_stamp_failure(outcome->Err_0@, nanos));
            outcome
        },
    }
}

/// Securing an envelope inserts the header and changes nothing else: what stood in
/// front of the body and all from the body on is still there.
pub proof fn law_securing_only_inserts(
    envelope: Seq<char>,
    username: Seq<char>,
    password: Seq<char>,
    created: Seq<char>,
    nonce: Seq<u8>,
    at: int,
)
    requires
        occurs_at(envelope, "<s:Body>"@, at),
        forall|i: int| i < at ==> !#[trigger] occurs_at(envelope, "<s:Body>"@, i),
    ensures
        secured(envelope, username, password, created, nonce) == envelope.take(at) + wsse_header(
            username,
            password,
            created,
            nonce,
        ) + envelope.skip(at),
{
    let body = "<s:Body>"@;
    let header = wsse_header(username, password, created, nonce);
    law_replaced_first(envelope, body, header + body, at);
    assert(envelope.subrange(at, at + body.len()) + envelope.skip(at + body.len())
        =~= envelope.skip(at));
    assert(envelope.take(at) + (header + body) + envelope.skip(at + body.len()) =~= envelope.take(
        at,
    ) + header + (body + envelope.skip(at + body.len())));
}

/// How the fixed parts of the security header begin and end.
spec fn header_is_cut() -> bool {
    &&& has_suffix("<s:Header><wsse:Security s:mustUnderstand=\"1\" xmlns:wsse=\"http://docs.oasis-open.org/wss/2004/01/oasis-200401-wss-wssecurity-secext-1.0.xsd\" xmlns:wsu=\"http://docs.oasis-open.org/wss/2004/01/oasis-200401-wss-wssecurity-utility-1.0.xsd\"><wsse:UsernameToken><wsse:Username>"@, "<wsse:Username>"@)
    &&& "</wsse:Username>"@.is_prefix_of("</wsse:Username><wsse:Password Type=\"http://docs.oasis-open.org/wss/2004/01/oasis-200401-wss-username-token-profile-1.0#PasswordDigest\">"@)
    &&& has_suffix("</wsse:Username><wsse:Password Type=\"http://docs.oasis-open.org/wss/2004/01/oasis-200401-wss-username-token-profile-1.0#PasswordDigest\">"@, "#PasswordDigest\">"@)
    &&& "</wsse:Password>"@.is_prefix_of("</wsse:Password><wsse:Nonce EncodingType=\"http://docs.oasis-open.org/wss/2004/01/oasis-200401-wss-soap-message-security-1.0#Base64Binary\">"@)
    &&& has_suffix("</wsse:Password><wsse:Nonce EncodingType=\"http://docs.oasis-open.org/wss/2004/01/oasis-200401-wss-soap-message-security-1.0#Base64Binary\">"@, "#Base64Binary\">"@)
    &&& "</wsse:Nonce>"@.is_prefix_of("</wsse:Nonce><wsu:Created>"@)
    &&& has_suffix("</wsse:Nonce><wsu:Created>"@, "<wsu:Created>"@)
    &&& "</wsu:Created>"@.is_prefix_of("</wsu:Created></wsse:UsernameToken></wsse:Security></s:Header>"@)
}

proof fn lemma_header_is_cut()
    ensures
        header_is_cut(),
{
    reveal_strlit("<s:Header><wsse:Security s:mustUnderstand=\"1\" xmlns:wsse=\"http://docs.oasis-open.org/wss/2004/01/oasis-200401-wss-wssecurity-secext-1.0.xsd\" xmlns:wsu=\"http://docs.oasis-open.org/wss/2004/01/oasis-200401-wss-wssecurity-utility-1.0.xsd\"><wsse:UsernameToken><wsse:Username>");
    reveal_strlit("</wsse:Username><wsse:Password Type=\"http://docs.oasis-open.org/wss/2004/01/oasis-200401-wss-username-token-profile-1.0#PasswordDigest\">");
    reveal_strlit("</wsse:Password><wsse:Nonce EncodingType=\"http://docs.oasis-open.org/wss/2004/01/oasis-200401-wss-soap-message-security-1.0#Base64Binary\">");
    reveal_strlit("</wsse:Nonce><wsu:Created>");
    reveal_strlit("</wsu:Created></wsse:UsernameToken></wsse:Security></s:Header>");
    reveal_strlit("<wsse:Username>");
    reveal_strlit("</wsse:Username>");
    reveal_strlit("#PasswordDigest\">");
    reveal_strlit("</wsse:Password>");
    reveal_strlit("#Base64Binary\">");
    reveal_strlit("</wsse:Nonce>");
    reveal_strlit("<wsu:Created>");
    reveal_strlit("</wsu:Created>");
    assert("<s:Header><wsse:Security s:mustUnderstand=\"1\" xmlns:wsse=\"http://docs.oasis-open.org/wss/2004/01/oasis-200401-wss-wssecurity-secext-1.0.xsd\" xmlns:wsu=\"http://docs.oasis-open.org/wss/2004/01/oasis-200401-wss-wssecurity-utility-1.0.xsd\"><wsse:UsernameToken><wsse:Username>"@.subrange("<s:Header><wsse:Security s:mustUnderstand=\"1\" xmlns:wsse=\"http://docs.oasis-open.org/wss/2004/01/oasis-200401-wss-wssecurity-secext-1.0.xsd\" xmlns:wsu=\"http://docs.oasis-open.org/wss/2004/01/oasis-200401-wss-wssecurity-utility-1.0.xsd\"><wsse:UsernameToken><wsse:Username>"@.len() - "<wsse:Username>"@.len(), "<s:Header><wsse:Security s:mustUnderstand=\"1\" xmlns:wsse=\"http://docs.oasis-open.org/wss/2004/01/oasis-200401-wss-wssecurity-secext-1.0.xsd\" xmlns:wsu=\"http://docs.oasis-open.org/wss/2004/01/oasis-200401-wss-wssecurity-utility-1.0.xsd\"><wsse:UsernameToken><wsse:Username>"@.len() as int) =~= "<wsse:Username>"@);
    assert("</wsse:Username><wsse:Password Type=\"http://docs.oasis-open.org/wss/2004/01/oasis-200401-wss-username-token-profile-1.0#PasswordDigest\">"@.subrange("</wsse:Username><wsse:Password Type=\"http://docs.oasis-open.org/wss/2004/01/oasis-200401-wss-username-token-profile-1.0#PasswordDigest\">"@.len() - "#PasswordDigest\">"@.len(), "</wsse:Username><wsse:Password Type=\"http://docs.oasis-open.org/wss/2004/01/oasis-200401-wss-username-token-profile-1.0#PasswordDigest\">"@.len() as int) =~= "#PasswordDigest\">"@);
    assert("</wsse:Password><wsse:Nonce EncodingType=\"http://docs.oasis-open.org/wss/2004/01/oasis-200401-wss-soap-message-security-1.0#Base64Binary\">"@.subrange("</wsse:Password><wsse:Nonce EncodingType=\"http://docs.oasis-open.org/wss/2004/01/oasis-200401-wss-soap-message-security-1.0#Base64Binary\">"@.len() - "#Base64Binary\">"@.len(), "</wsse:Password><wsse:Nonce EncodingType=\"http://docs.oasis-open.org/wss/2004/01/oasis-200401-wss-soap-message-security-1.0#Base64Binary\">"@.len() as int) =~= "#Base64Binary\">"@);
    assert("</wsse:Nonce><wsu:Created>"@.subrange("</wsse:Nonce><wsu:Created>"@.len() - "<wsu:Created>"@.len(), "</wsse:Nonce><wsu:Created>"@.len() as int) =~= "<wsu:Created>"@);
    assert("</wsse:Username>"@ =~= "</wsse:Username><wsse:Password Type=\"http://docs.oasis-open.org/wss/2004/01/oasis-200401-wss-username-token-profile-1.0#PasswordDigest\">"@.take("</wsse:Username>"@.len() as int));
    assert("</wsse:Password>"@ =~= "</wsse:Password><wsse:Nonce EncodingType=\"http://docs.oasis-open.org/wss/2004/01/oasis-200401-wss-soap-message-security-1.0#Base64Binary\">"@.take("</wsse:Password>"@.len() as int));
    assert("</wsse:Nonce>"@ =~= "</wsse:Nonce><wsu:Created>"@.take("</wsse:Nonce>"@.len() as int));
    assert("</wsu:Created>"@ =~= "</wsu:Created></wsse:UsernameToken></wsse:Security></s:Header>"@.take("</wsu:Created>"@.len() as int));
}

/// A value between two others stands literally between the tags that enclose it.
proof fn lemma_header_value(
    front: Seq<char>,
    before: Seq<char>,
    start: Seq<char>,
    value: Seq<char>,
    end: Seq<char>,
    after: Seq<char>,
    back: Seq<char>,
)
    requires
        has_suffix(before, start),
        end.is_prefix_of(after),
    ensures
        occurs(front + before + value + (after + back), start + value + end),
{
    lemma_longer_text_ends_alike(front, before, start);
    assert(end =~= (after + back).take(end.len() as int));
    lemma_value_stands_between(front + before, start, value, end, after + back);
}

/// The security header shows the user name, escaped, the moment and the nonce, in Base64; and
/// instead of the password the digest, in Base64, of the nonce, the moment and the password, in
/// this order and without anything between them.
pub proof fn law_header_shows_its_values(
    username: Seq<char>,
    password: Seq<char>,
    created: Seq<char>,
    nonce: Seq<u8>,
)
    ensures
        ({
            let header = wsse_header(username, password, created, nonce);
            let digest = sha1_digest(nonce + (encode_utf8(created) + encode_utf8(password)));
            &&& occurs(header, "<wsse:Username>"@ + escaped(username) + "</wsse:Username>"@)
            &&& occurs(header, "#PasswordDigest\">"@ + base64_text(digest) + "</wsse:Password>"@)
            &&& occurs(header, "#Base64Binary\">"@ + base64_text(nonce) + "</wsse:Nonce>"@)
            &&& occurs(header, "<wsu:Created>"@ + created + "</wsu:Created>"@)
        }),
{
    lemma_header_is_cut();
    let input = nonce + (encode_utf8(created) + encode_utf8(password));
    assert(input =~= digest_input(nonce, created, password));
    let first = "<s:Header><wsse:Security s:mustUnderstand=\"1\" xmlns:wsse=\"http://docs.oasis-open.org/wss/2004/01/oasis-200401-wss-wssecurity-secext-1.0.xsd\" xmlns:wsu=\"http://docs.oasis-open.org/wss/2004/01/oasis-200401-wss-wssecurity-utility-1.0.xsd\"><wsse:UsernameToken><wsse:Username>"@;
    let second = "</wsse:Username><wsse:Password Type=\"http://docs.oasis-open.org/wss/2004/01/oasis-200401-wss-username-token-profile-1.0#PasswordDigest\">"@;
    let third = "</wsse:Password><wsse:Nonce EncodingType=\"http://docs.oasis-open.org/wss/2004/01/oasis-200401-wss-soap-message-security-1.0#Base64Binary\">"@;
    let fourth = "</wsse:Nonce><wsu:Created>"@;
    let fifth = "</wsu:Created></wsse:UsernameToken></wsse:Security></s:Header>"@;
    let user = escaped(username);
    let proof_text = base64_text(sha1_digest(input));
    let salt = base64_text(nonce);
    lemma_header_parts(first, user, second, proof_text, third, salt, fourth, created, fifth);
    let none = Seq::<char>::empty();
    lemma_header_value(
        none,
        first,
        "<wsse:Username>"@,
        user,
        "</wsse:Username>"@,
        second,
        proof_text + third + salt + fourth + created + fifth,
    );
    lemma_header_value(
        first + user,
        second,
        "#PasswordDigest\">"@,
        proof_text,
        "</wsse:Password>"@,
        third,
        salt + fourth + created + fifth,
    );
    lemma_header_value(
        first + user + second + proof_text,
        third,
        "#Base64Binary\">"@,
        salt,
        "</wsse:Nonce>"@,
        fourth,
        created + fifth,
    );
    lemma_header_value(
        first + user + second + proof_text + third + salt,
        fourth,
        "<wsu:Created>"@,
        created,
        "</wsu:Created>"@,
        fifth,
        none,
    );
}

/// A header of nine parts, grouped around each of its values.
proof fn lemma_header_parts(
    a: Seq<char>,
    b: Seq<char>,
    c: Seq<char>,
    d: Seq<char>,
    e: Seq<char>,
    f: Seq<char>,
    g: Seq<char>,
    h: Seq<char>,
    i: Seq<char>,
)
    ensures
        ({
            let all = a + b + c + d + e + f + g + h + i;
            let none = Seq::<char>::empty();
            &&& all == none + a + b + (c + (d + e + f + g + h + i))
            &&& all == (a + b) + c + d + (e + (f + g + h + i))
            &&& all == (a + b + c + d) + e + f + (g + (h + i))
            &&& all == (a + b + c + d + e + f) + g + h + (i + none)
        }),
{
    let all = a + b + c + d + e + f + g + h + i;
    let none = Seq::<char>::empty();
    assert(all =~= none + a + b + (c + (d + e + f + g + h + i)));
    assert(all =~= (a + b) + c + d + (e + (f + g + h + i)));
    assert(all =~= (a + b + c + d) + e + f + (g + (h + i)));
    assert(all =~= (a + b + c + d + e + f) + g + h + (i + none));
}

/// The digest is over the nonce, the moment and the password, in this order: its input begins
/// with the one, ends with the other and holds nothing else.
pub proof fn law_digest_covers_its_values(
    nonce: Seq<u8>,
    created: Seq<char>,
    password: Seq<char>,
)
    ensures
        ({
            let input = digest_input(nonce, created, password);
            let stamp = encode_utf8(created);
            let secret = encode_utf8(password);
            &&& input.len() == nonce.len() + stamp.len() + secret.len()
            &&& input.take(nonce.len() as int) == nonce
            &&& input.subrange(nonce.len() as int, (nonce.len() + stamp.len()) as int) == stamp
            &&& input.skip((nonce.len() + stamp.len()) as int) == secret
        }),
{
    let input = digest_input(nonce, created, password);
    let stamp = encode_utf8(created);
    let secret = encode_utf8(password);
    assert(input.take(nonce.len() as int) =~= nonce);
    assert(input.subrange(nonce.len() as int, (nonce.len() + stamp.len()) as int) =~= stamp);
    assert(input.skip((nonce.len() + stamp.len()) as int) =~= secret);
}

/// Escaping goes character by character: the five that have a meaning in XML become what
/// stands for them, every other one stays.
pub proof fn law_escaping_is_by_character(a: Seq<char>, b: Seq<char>, c: char)
    ensures
        escaped(a + b) == escaped(a) + escaped(b),
        c != '&' && c != '<' && c != '>' && c != '"' && c != '\'' ==> escaped(seq![c]) == seq![c],
        escaped(seq!['&']) == seq!['&', 'a', 'm', 'p', ';'],
        escaped(seq!['<']) == seq!['&', 'l', 't', ';'],
        escaped(seq!['>']) == seq!['&', 'g', 't', ';'],
        escaped(seq!['"']) == seq!['&', 'q', 'u', 'o', 't', ';'],
        escaped(seq!['\'']) == seq!['&', 'a', 'p', 'o', 's', ';'],
    decreases b.len(),
{
    lemma_entities();
    let none = Seq::<char>::empty();
    assert(none.push(c) =~= seq![c]);
    assert(none.push('&') =~= seq!['&']);
    assert(none.push('<') =~= seq!['<']);
    assert(none.push('>') =~= seq!['>']);
    assert(none.push('"') =~= seq!['"']);
    assert(none.push('\'') =~= seq!['\'']);
    lemma_escaped_push(none, c);
    lemma_escaped_push(none, '&');
    lemma_escaped_push(none, '<');
    lemma_escaped_push(none, '>');
    lemma_escaped_push(none, '"');
    lemma_escaped_push(none, '\'');
    if b.len() == 0 {
        assert(a + b =~= a);
        assert(escaped(a) + escaped(b) =~= escaped(a));
    } else {
        let shorter = b.drop_last();
        law_escaping_is_by_character(a, shorter, c);
        assert(shorter.push(b.last()) =~= b);
        assert((a + shorter).push(b.last()) =~= a + b);
        lemma_escaped_push(shorter, b.last());
        lemma_escaped_push(a + shorter, b.last());
        assert(escaped(a) + escaped(shorter) + escaped_char(b.last()) =~= escaped(a) + (escaped(
            shorter,
        ) + escaped_char(b.last())));
    }
}

} // verus!
