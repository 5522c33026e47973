//! The bot/crawler user-agent classifier: a static string-membership check
//! over the ASCII-lowercased user-agent.

use vstd::prelude::*;

use crate::text::{contains_exec, contains_seq, str_to_chars};

verus! {

/// `c` with an ASCII uppercase letter mapped to its lowercase form.
pub open spec fn spec_lower_char(c: char) -> char {
    if 65 <= (c as u32) && (c as u32) <= 90 {
        (((c as u32) + 32) as u8) as char
    } else {
        c
    }
}

/// The ASCII-lowercased form of `s`.
pub open spec fn spec_lower(s: Seq<char>) -> Seq<char> {
    s.map_values(|c: char| spec_lower_char(c))
}

/// Lowercases the ASCII letters of `v`.
fn lower_chars(v: &Vec<char>) -> (r: Vec<char>)
    ensures
        r@ == spec_lower(v@),
{
    let mut r: Vec<char> = Vec::new();
    let mut i: usize = 0;
    while i < v.len()
        invariant
            i <= v@.len(),
            r@ == spec_lower(v@.subrange(0, i as int)),
        decreases v@.len() - i,
    {
        let c = v[i];
        let u = c as u32;
        if 65 <= u && u <= 90 {
            r.push(((u + 32) as u8) as char);
        } else {
            r.push(c);
        }
        assert(r@ =~= spec_lower(v@.subrange(0, i + 1)));
        i += 1;
    }
    assert(v@.subrange(0, v@.len() as int) =~= v@);
    r
}

/// The known bot signatures, all lowercase.
pub open spec fn spec_bot_signatures() -> Seq<Seq<char>> {
    seq![
        "bot"@,
        "facebook"@,
        "embed"@,
        "got"@,
        "firefox/92"@,
        "firefox/38"@,
        "curl"@,
        "wget"@,
        "go-http"@,
        "yahoo"@,
        "generator"@,
        "whatsapp"@,
        "preview"@,
        "link"@,
        "proxy"@,
        "vkshare"@,
        "images"@,
        "analyzer"@,
        "index"@,
        "crawl"@,
        "spider"@,
        "python"@,
        "cfnetwork"@,
        "node"@,
        "mastodon"@,
        "http.rb"@,
        "discord"@,
        "telegram"@,
        "slack"@,
        "redditbot"@,
        "dataprovider"@,
    ]
}

/// A user agent is a bot when its lowercased form contains any signature.
pub open spec fn spec_is_bot(ua: Seq<char>) -> bool {
    exists|i: int|
        0 <= i < spec_bot_signatures().len() && contains_seq(
            spec_lower(ua),
            spec_bot_signatures()[i],
        )
}

fn bot_signatures_exec() -> (r: Vec<Vec<char>>)
    ensures
        r@.len() == spec_bot_signatures().len(),
        forall|i: int| 0 <= i < r@.len() ==> r@[i]@ == spec_bot_signatures()[i],
{
    let mut r: Vec<Vec<char>> = Vec::new();
    r.push(str_to_chars("bot"));
    r.push(str_to_chars("facebook"));
    r.push(str_to_chars("embed"));
    r.push(str_to_chars("got"));
    r.push(str_to_chars("firefox/92"));
    r.push(str_to_chars("firefox/38"));
    r.push(str_to_chars("curl"));
    r.push(str_to_chars("wget"));
    r.push(str_to_chars("go-http"));
    r.push(str_to_chars("yahoo"));
    r.push(str_to_chars("generator"));
    r.push(str_to_chars("whatsapp"));
    r.push(str_to_chars("preview"));
    r.push(str_to_chars("link"));
    r.push(str_to_chars("proxy"));
    r.push(str_to_chars("vkshare"));
    r.push(str_to_chars("images"));
    r.push(str_to_chars("analyzer"));
    r.push(str_to_chars("index"));
    r.push(str_to_chars("crawl"));
    r.push(str_to_chars("spider"));
    r.push(str_to_chars("python"));
    r.push(str_to_chars("cfnetwork"));
    r.push(str_to_chars("node"));
    r.push(str_to_chars("mastodon"));
    r.push(str_to_chars("http.rb"));
    r.push(str_to_chars("discord"));
    r.push(str_to_chars("telegram"));
    r.push(str_to_chars("slack"));
    r.push(str_to_chars("redditbot"));
    r.push(str_to_chars("dataprovider"));
    r
}

/// Returns `true` if the user-agent string matches any known bot signature,
/// case-insensitively.
pub fn is_bot(user_agent: &str) -> (r: bool)
    ensures
        r == spec_is_bot(user_agent@),
{
    let ua = str_to_chars(user_agent);
    let lowered = lower_chars(&ua);
    let sigs = bot_signatures_exec();
    let mut i: usize = 0;
    while i < sigs.len()
        invariant
            i <= sigs@.len(),
            lowered@ == spec_lower(user_agent@),
            sigs@.len() == spec_bot_signatures().len(),
            forall|j: int| 0 <= j < sigs@.len() ==> sigs@[j]@ == spec_bot_signatures()[j],
            forall|j: int|
                0 <= j < i ==> !contains_seq(spec_lower(user_agent@), spec_bot_signatures()[j]),
        decreases sigs@.len() - i,
    {
        if contains_exec(&lowered, &sigs[i]) {
            assert(contains_seq(spec_lower(user_agent@), spec_bot_signatures()[i as int]));
            return true;
        }
        i += 1;
    }
    false
}

} // verus!
