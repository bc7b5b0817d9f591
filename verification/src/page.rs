//! The page that shows the camera.

use vstd::prelude::*;
use crate::outside::{json_text, str_view, to_json};
use crate::text::{
    law_replaced_all_absent, occurs, occurs_at, replace_all, replaced_all,
};

verus! {

/// The page: the template with the video's address and the configured profile in
/// their places, each as a JavaScript value.
pub open spec fn page(
    template: Seq<char>,
    webrtc_url: Seq<char>,
    profile_token: Option<Seq<char>>,
) -> Seq<char> {
    replaced_all(
        replaced_all(template, "__WEBRTC_URL__"@, json_text(Some(webrtc_url))),
        "__CONFIGURED_PROFILE_TOKEN__"@,
        json_text(profile_token),
    )
}

/// A text, or `null` if there is none, as a JavaScript value.
fn script_value(value: Option<&str>) -> (text: String)
    ensures
        text@ == json_text(str_view(value)),
{
    match to_json(value) {
        Some(text) => text,
        None => "null".to_owned(),
    }
}

/// Fills the template.
pub fn render_index(template: &str, webrtc_url: &str, profile_token: Option<&str>) -> (html: String)
    ensures
        html@ == page(template@, webrtc_url@, str_view(profile_token)),
{
    proof {
        reveal_strlit("__WEBRTC_URL__");
        reveal_strlit("__CONFIGURED_PROFILE_TOKEN__");
    }
    let url = script_value(Some(webrtc_url));
    let configured = script_value(profile_token);
    let with_url = replace_all(template, "__WEBRTC_URL__", url.as_str());
    replace_all(with_url.as_str(), "__CONFIGURED_PROFILE_TOKEN__", configured.as_str())
}

/// A template without places to fill is served as it is.
pub proof fn law_plain_template_is_served_unchanged(
    template: Seq<char>,
    webrtc_url: Seq<char>,
    profile_token: Option<Seq<char>>,
)
    requires
        !occurs(template, "__WEBRTC_URL__"@),
        !occurs(template, "__CONFIGURED_PROFILE_TOKEN__"@),
    ensures
        page(template, webrtc_url, profile_token) == template,
{
    law_replaced_all_absent(
        template,
        "__WEBRTC_URL__"@,
        json_text(Some(webrtc_url)),
    );
    law_replaced_all_absent(
        template,
        "__CONFIGURED_PROFILE_TOKEN__"@,
        json_text(profile_token),
    );
}

/// The text holds no underscore, with which both places begin.
pub open spec fn is_plain(s: Seq<char>) -> bool {
    forall|i: int| 0 <= i < s.len() ==> #[trigger] s[i] != '_'
}

proof fn lemma_plain_text_stays(a: Seq<char>, s: Seq<char>, pat: Seq<char>, with: Seq<char>)
    requires
        pat.len() > 0,
        pat[0] == '_',
        is_plain(a),
    ensures
        replaced_all(a + s, pat, with) == a + replaced_all(s, pat, with),
    decreases a.len(),
{
    let whole = a + s;
    if a.len() == 0 {
        assert(whole =~= s);
        assert(a + replaced_all(s, pat, with) =~= replaced_all(s, pat, with));
    } else {
        assert(!occurs_at(whole, pat, 0)) by {
            if occurs_at(whole, pat, 0) {
                assert(whole.subrange(0, pat.len() as int)[0] == pat[0]);
                assert(whole[0] == a[0]);
            }
        }
        lemma_plain_text_stays(a.skip(1), s, pat, with);
        assert(whole.skip(1) =~= a.skip(1) + s);
        assert(seq![a[0]] + (a.skip(1) + replaced_all(s, pat, with)) =~= a + replaced_all(
            s,
            pat,
            with,
        ));
    }
}

proof fn lemma_place_is_filled(a: Seq<char>, s: Seq<char>, pat: Seq<char>, with: Seq<char>)
    requires
        pat.len() > 0,
        pat[0] == '_',
        is_plain(a),
    ensures
        replaced_all(a + pat + s, pat, with) == a + with + replaced_all(s, pat, with),
{
    let rest = pat + s;
    assert(a + pat + s =~= a + rest);
    lemma_plain_text_stays(a, rest, pat, with);
    assert(rest.subrange(0, pat.len() as int) =~= pat);
    assert(rest.skip(pat.len() as int) =~= s);
    assert(a + (with + replaced_all(s, pat, with)) =~= a + with + replaced_all(s, pat, with));
}

/// The place for the address does not occur in the place for the profile and plain text behind
/// it.
proof fn lemma_places_differ(c: Seq<char>)
    requires
        is_plain(c),
    ensures
        !occurs("__CONFIGURED_PROFILE_TOKEN__"@ + c, "__WEBRTC_URL__"@),
{
    reveal_strlit("__CONFIGURED_PROFILE_TOKEN__");
    reveal_strlit("__WEBRTC_URL__");
    let token = "__CONFIGURED_PROFILE_TOKEN__"@;
    let address = "__WEBRTC_URL__"@;
    let whole = token + c;
    assert forall|i: int| !#[trigger] occurs_at(whole, address, i) by {
        if occurs_at(whole, address, i) {
            let part = whole.subrange(i, i + address.len());
            assert(part[0] == whole[i] && part[1] == whole[i + 1]);
            assert(part[2] == whole[i + 2] && part[8] == whole[i + 8]);
            if i >= 28 {
                assert(whole[i] == c[i - 28]);
            } else if i == 27 {
                assert(whole[28] == c[0]);
            } else if i == 26 {
                assert(whole[34] == c[6]);
            } else {
                assert(whole[i] == token[i] && whole[i + 1] == token[i + 1]);
            }
        }
    }
}

/// The page shows the address of the video in its place and the configured profile, or that
/// there is none, in the other, and the rest of the template as it is.
pub proof fn law_places_are_filled(
    a: Seq<char>,
    b: Seq<char>,
    c: Seq<char>,
    webrtc_url: Seq<char>,
    profile_token: Option<Seq<char>>,
)
    requires
        is_plain(a),
        is_plain(b),
        is_plain(c),
        is_plain(json_text(Some(webrtc_url))),
    ensures
        page(
            a + "__WEBRTC_URL__"@ + (b + "__CONFIGURED_PROFILE_TOKEN__"@ + c),
            webrtc_url,
            profile_token,
        ) == a + json_text(Some(webrtc_url)) + b + json_text(profile_token) + c,
{
    let address = "__WEBRTC_URL__"@;
    let token = "__CONFIGURED_PROFILE_TOKEN__"@;
    let url = json_text(Some(webrtc_url));
    let configured = json_text(profile_token);
    assert(address.len() > 0 && address[0] == '_') by {
        reveal_strlit("__WEBRTC_URL__");
    }
    assert(token.len() > 0 && token[0] == '_') by {
        reveal_strlit("__CONFIGURED_PROFILE_TOKEN__");
    }
    let tail = b + token + c;
    lemma_place_is_filled(a, tail, address, url);
    assert(tail =~= b + (token + c));
    lemma_plain_text_stays(b, token + c, address, url);
    lemma_places_differ(c);
    law_replaced_all_absent(token + c, address, url);
    let first = a + url + tail;
    let front = a + url + b;
    assert(first =~= front + token + c);
    assert(is_plain(front));
    lemma_place_is_filled(front, c, token, configured);
    let none = Seq::<char>::empty();
    lemma_plain_text_stays(c, none, token, configured);
    assert(c + none =~= c);
}

} // verus!
