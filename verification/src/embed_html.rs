//! Rendering of the HTML embed page: OpenGraph and Twitter Card meta tags
//! for the resolved record, with escaping, caption truncation and
//! comma-grouped engagement counts.

use vstd::prelude::*;

use crate::escape::{escape_html, spec_escape_html};
use crate::text::{chars_to_string, lemma_join_push, spec_join, str_to_chars, subrange_chars};
use crate::types::{InstaData, InstaDataV, MediaType, MediaV};

verus! {

/// The character of a decimal digit.
pub open spec fn spec_digit_char(d: nat) -> char {
    ((48 + d) as u8) as char
}

/// The decimal digits of `n`, most significant first.
pub open spec fn spec_dec_digits(n: nat) -> Seq<char>
    decreases n,
{
    if n < 10 {
        seq![spec_digit_char(n)]
    } else {
        spec_dec_digits(n / 10).push(spec_digit_char(n % 10))
    }
}

/// The decimal digits of `n`, as characters.
pub fn u64_to_dec_chars(n: u64) -> (v: Vec<char>)
    ensures
        v@ == spec_dec_digits(n as nat),
{
    let mut v: Vec<char> = Vec::new();
    let mut m: u64 = n;
    loop
        invariant_except_break
            spec_dec_digits(n as nat) == (if v@.len() == 0 {
                spec_dec_digits(m as nat)
            } else {
                spec_dec_digits(m as nat) + v@
            }),
        ensures
            v@ == spec_dec_digits(n as nat),
        decreases m,
    {
        let ghost prev = v@;
        let d = m % 10;
        v.insert(0, ((48 + (d as u32)) as u8) as char);
        assert(v@ =~= seq![spec_digit_char((m as nat) % 10)] + prev);
        let next = m / 10;
        proof {
            if next == 0 {
                assert(m < 10);
                assert(spec_dec_digits(m as nat) == seq![spec_digit_char(m as nat)]);
                assert(seq![spec_digit_char((m as nat) % 10)] =~= spec_dec_digits(m as nat));
                if prev.len() == 0 {
                    assert(spec_dec_digits(m as nat) + prev =~= spec_dec_digits(m as nat));
                }
            } else {
                assert(m >= 10);
                assert(spec_dec_digits(m as nat) == spec_dec_digits((m as nat) / 10).push(
                    spec_digit_char((m as nat) % 10),
                ));
                assert(spec_dec_digits((m as nat) / 10).push(spec_digit_char((m as nat) % 10))
                    =~= spec_dec_digits((m as nat) / 10) + seq![spec_digit_char((m as nat) % 10)]);
                if prev.len() == 0 {
                    assert(spec_dec_digits(next as nat) + v@ =~= spec_dec_digits(m as nat));
                } else {
                    assert(spec_dec_digits(next as nat) + (seq![spec_digit_char((m as nat) % 10)]
                        + prev) =~= (spec_dec_digits(next as nat) + seq![
                        spec_digit_char((m as nat) % 10),
                    ]) + prev);
                }
            }
        }
        if next == 0 {
            assert(v@ == spec_dec_digits(n as nat));
            break ;
        }
        m = next;
    }
    v
}

/// The digits of `s` from position `i` on, with a comma before every
/// position from which a multiple of three digits remains.
pub open spec fn spec_group_from(s: Seq<char>, i: int) -> Seq<char>
    decreases s.len() - i,
{
    if i < 0 || i >= s.len() {
        Seq::empty()
    } else {
        (if i > 0 && (s.len() - i) % 3 == 0 {
            seq![',']
        } else {
            Seq::empty()
        }) + seq![s[i]] + spec_group_from(s, i + 1)
    }
}

/// `s` with comma separators inserted every three digits from the right.
pub open spec fn spec_group_commas(s: Seq<char>) -> Seq<char> {
    spec_group_from(s, 0)
}

/// The comma-grouped decimal rendering of `n`.
pub open spec fn spec_format_number(n: nat) -> Seq<char> {
    spec_group_commas(spec_dec_digits(n))
}

/// Formats a number with comma separators every three digits.
pub fn format_number(n: u64) -> (r: String)
    ensures
        r@ == spec_format_number(n as nat),
{
    let ds = u64_to_dec_chars(n);
    let len = ds.len();
    let mut out: Vec<char> = Vec::new();
    let mut i: usize = 0;
    proof {
        assert(Seq::<char>::empty() + spec_group_from(ds@, 0) =~= spec_group_from(ds@, 0));
    }
    while i < len
        invariant
            i <= len,
            len == ds@.len(),
            spec_group_commas(ds@) == out@ + spec_group_from(ds@, i as int),
        decreases len - i,
    {
        let ghost prev = out@;
        if i > 0 && (len - i) % 3 == 0 {
            out.push(',');
            out.push(ds[i]);
            assert(out@ =~= prev + (seq![','] + seq![ds@[i as int]]));
            assert(prev + (seq![','] + seq![ds@[i as int]]) + spec_group_from(ds@, i + 1) =~= prev
                + ((seq![','] + seq![ds@[i as int]]) + spec_group_from(ds@, i + 1)));
        } else {
            out.push(ds[i]);
            assert(out@ =~= prev + (Seq::<char>::empty() + seq![ds@[i as int]]));
            assert(prev + (Seq::<char>::empty() + seq![ds@[i as int]]) + spec_group_from(
                ds@,
                i + 1,
            ) =~= prev + ((Seq::<char>::empty() + seq![ds@[i as int]]) + spec_group_from(
                ds@,
                i + 1,
            )));
        }
        i += 1;
    }
    assert(spec_group_from(ds@, len as int) =~= Seq::<char>::empty());
    assert(out@ =~= spec_group_commas(ds@));
    chars_to_string(&out)
}

/// The UTF-8 encoded length of one character, by the encoding's ranges.
pub open spec fn spec_char_utf8_len(c: char) -> int {
    if (c as u32) < 0x80 {
        1
    } else if (c as u32) < 0x800 {
        2
    } else if (c as u32) < 0x10000 {
        3
    } else {
        4
    }
}

/// The UTF-8 encoded length of a character sequence.
pub open spec fn spec_utf8_len(s: Seq<char>) -> int
    decreases s.len(),
{
    if s.len() == 0 {
        0
    } else {
        spec_char_utf8_len(s[0]) + spec_utf8_len(s.drop_first())
    }
}

proof fn lemma_utf8_len_push(s: Seq<char>, c: char)
    ensures
        spec_utf8_len(s.push(c)) == spec_utf8_len(s) + spec_char_utf8_len(c),
    decreases s.len(),
{
    if s.len() == 0 {
        assert(s.push(c)[0] == c);
        assert(s.push(c).drop_first() =~= Seq::<char>::empty());
        assert(spec_utf8_len(Seq::<char>::empty()) == 0);
    } else {
        assert(s.push(c)[0] == s[0]);
        assert(s.push(c).drop_first() =~= s.drop_first().push(c));
        lemma_utf8_len_push(s.drop_first(), c);
    }
}

proof fn lemma_utf8_len_prefix(s: Seq<char>, j: int)
    requires
        0 <= j <= s.len(),
    ensures
        spec_utf8_len(s.take(j)) <= spec_utf8_len(s),
    decreases s.len() - j,
{
    if j == s.len() {
        assert(s.take(j) =~= s);
    } else {
        assert(s.take(j + 1) =~= s.take(j).push(s[j]));
        lemma_utf8_len_push(s.take(j), s[j]);
        lemma_utf8_len_prefix(s, j + 1);
    }
}

/// The longest prefix of `s` whose UTF-8 encoding fits in `max` bytes:
/// trailing characters are dropped until the rest fits, so the cut never
/// splits a character's encoding.
pub open spec fn spec_fit_prefix(s: Seq<char>, max: int) -> Seq<char>
    decreases s.len(),
{
    if spec_utf8_len(s) <= max {
        s
    } else if s.len() == 0 {
        s
    } else {
        spec_fit_prefix(s.drop_last(), max)
    }
}

/// The greedy cut is the fitting prefix: a prefix of `k` characters that
/// fits, where no character can be added without exceeding `max`, is
/// exactly the longest fitting prefix.
proof fn lemma_fit_prefix_exact(s: Seq<char>, max: int, k: int)
    requires
        0 <= max,
        0 <= k <= s.len(),
        spec_utf8_len(s.take(k)) <= max,
        k < s.len() ==> spec_utf8_len(s.take(k + 1)) > max,
    ensures
        spec_fit_prefix(s, max) == s.take(k),
    decreases s.len(),
{
    if spec_utf8_len(s) <= max {
        if k < s.len() {
            lemma_utf8_len_prefix(s, k + 1);
            assert(false);
        }
        assert(s.take(k) =~= s);
    } else {
        assert(s.take(s.len() as int) =~= s);
        assert(k < s.len());
        let t = s.drop_last();
        assert(t =~= s.take(s.len() - 1));
        assert(t.take(k) =~= s.take(k));
        if k < t.len() {
            assert(t.take(k + 1) =~= s.take(k + 1));
        }
        lemma_fit_prefix_exact(t, max, k);
    }
}

/// `s` cut at the largest character boundary whose UTF-8 byte length is at
/// most `max`, with a trailing ellipsis when anything was cut.
pub open spec fn spec_truncate(s: Seq<char>, max: int) -> Seq<char> {
    if spec_utf8_len(s) <= max {
        s
    } else {
        spec_fit_prefix(s, max) + "..."@
    }
}

fn char_utf8_len(c: char) -> (r: usize)
    ensures
        r == spec_char_utf8_len(c),
{
    let u = c as u32;
    if u < 0x80 {
        1
    } else if u < 0x800 {
        2
    } else if u < 0x10000 {
        3
    } else {
        4
    }
}

/// Truncates a string to at most `max_len` UTF-8 bytes, cutting at a
/// character boundary and appending `...` if truncated.
pub fn truncate(s: &str, max_len: usize) -> (r: String)
    ensures
        r@ == spec_truncate(s@, max_len as int),
{
    let cs = str_to_chars(s);
    let n = cs.len();
    let mut k: usize = 0;
    let mut used: usize = 0;
    proof {
        assert(cs@.take(0) =~= Seq::<char>::empty());
    }
    while k < n
        invariant_except_break
            k <= n,
            n == cs@.len(),
            cs@ == s@,
            used <= max_len,
            used == spec_utf8_len(cs@.take(k as int)),
        ensures
            k <= n,
            n == cs@.len(),
            cs@ == s@,
            used <= max_len,
            used == spec_utf8_len(cs@.take(k as int)),
            k < n ==> spec_utf8_len(cs@.take(k + 1)) > max_len,
        decreases n - k,
    {
        let cl = char_utf8_len(cs[k]);
        proof {
            assert(cs@.take(k + 1) =~= cs@.take(k as int).push(cs@[k as int]));
            lemma_utf8_len_push(cs@.take(k as int), cs@[k as int]);
        }
        if cl <= max_len - used {
            used = used + cl;
            k = k + 1;
        } else {
            assert(spec_utf8_len(cs@.take(k + 1)) > max_len);
            break ;
        }
    }
    if k == n {
        proof {
            assert(cs@.take(n as int) =~= cs@);
        }
        return s.to_owned();
    }
    proof {
        assert(spec_utf8_len(s@.take(k + 1)) > max_len);
        lemma_utf8_len_prefix(s@, k + 1);
        lemma_fit_prefix_exact(s@, max_len as int, k as int);
    }
    let head = subrange_chars(&cs, 0, k);
    assert(head@ =~= s@.take(k as int));
    let mut out = chars_to_string(&head);
    out.append("...");
    out
}

/// One `<meta>` tag line.
pub open spec fn spec_meta_tag(attr: Seq<char>, name: Seq<char>, content: Seq<char>) -> Seq<
    char,
> {
    "<meta "@ + attr + "=\""@ + name + "\" content=\""@ + content + "\">\n"@
}

/// Appends a `<meta>` tag to the HTML buffer.
pub fn push_meta(buf: &mut String, attr: &str, name: &str, content: &str)
    ensures
        final(buf)@ == old(buf)@ + spec_meta_tag(attr@, name@, content@),
{
    buf.append("<meta ");
    buf.append(attr);
    buf.append("=\"");
    buf.append(name);
    buf.append("\" content=\"");
    buf.append(content);
    buf.append("\">\n");
    assert(buf@ =~= old(buf)@ + spec_meta_tag(attr@, name@, content@));
}

/// The stats parts of the title, in order: view count for a video, like
/// count, comment count, and the slide position for a carousel.
pub open spec fn spec_stats_parts(
    d: InstaDataV,
    media_count: int,
    img_index: Option<usize>,
) -> Seq<Seq<char>> {
    let p0: Seq<Seq<char>> = Seq::empty();
    let p1 = if d.is_video && d.video_view_count is Some {
        p0.push(spec_format_number(d.video_view_count->0 as nat) + " views"@)
    } else {
        p0
    };
    let p2 = if d.like_count is Some {
        p1.push(spec_format_number(d.like_count->0 as nat) + " likes"@)
    } else {
        p1
    };
    let p3 = if d.comment_count is Some {
        p2.push(spec_format_number(d.comment_count->0 as nat) + " comments"@)
    } else {
        p2
    };
    if media_count > 1 {
        let idx: nat = match img_index {
            Some(i) => i as nat,
            None => 1,
        };
        p3.push("Slide "@ + spec_dec_digits(idx) + "/"@ + spec_dec_digits(media_count as nat))
    } else {
        p3
    }
}

/// The stats suffix of the title: empty when there are no parts, else a
/// separator and the parts joined by commas.
pub open spec fn spec_stats_suffix(
    d: InstaDataV,
    media_count: int,
    img_index: Option<usize>,
) -> Seq<char> {
    let parts = spec_stats_parts(d, media_count, img_index);
    if parts.len() == 0 {
        Seq::empty()
    } else {
        " | "@ + spec_join(parts, ", "@)
    }
}

/// Builds the stats suffix for the title tag.
pub fn build_stats_suffix(data: &InstaData, media_count: usize, img_index: Option<usize>) -> (r:
    String)
    ensures
        r@ == spec_stats_suffix(data@, media_count as int, img_index),
{
    let ghost gparts = spec_stats_parts(data@, media_count as int, img_index);
    let mut parts: Vec<String> = Vec::new();
    if data.is_video {
        if let Some(views) = data.video_view_count {
            let mut t = format_number(views);
            t.append(" views");
            parts.push(t);
        }
    }
    if let Some(likes) = data.like_count {
        let mut t = format_number(likes);
        t.append(" likes");
        parts.push(t);
    }
    if let Some(comments) = data.comment_count {
        let mut t = format_number(comments);
        t.append(" comments");
        parts.push(t);
    }
    if media_count > 1 {
        let idx: usize = match img_index {
            Some(i) => i,
            None => 1,
        };
        let mut t = String::from_str("Slide ");
        t.append(chars_to_string(&u64_to_dec_chars(idx as u64)).as_str());
        t.append("/");
        t.append(chars_to_string(&u64_to_dec_chars(media_count as u64)).as_str());
        parts.push(t);
    }
    proof {
        assert(Seq::new(parts@.len(), |i: int| parts@[i]@) =~= gparts);
    }
    if parts.len() == 0 {
        return String::new();
    }
    let mut out = String::from_str(" | ");
    let mut i: usize = 0;
    let ghost views = Seq::new(parts@.len(), |i: int| parts@[i]@);
    while i < parts.len()
        invariant
            i <= parts@.len(),
            parts@.len() > 0,
            views == Seq::new(parts@.len(), |k: int| parts@[k]@),
            out@ == " | "@ + (if i == 0 {
                Seq::<char>::empty()
            } else {
                spec_join(views.take(i as int), ", "@)
            }),
        decreases parts@.len() - i,
    {
        if i > 0 {
            out.append(", ");
        }
        out.append(parts[i].as_str());
        proof {
            lemma_join_push(views.take(i as int), views[i as int], ", "@);
            assert(views.take(i as int).push(views[i as int]) =~= views.take(i + 1));
            if i > 0 {
                assert(out@ =~= " | "@ + spec_join(views.take(i + 1), ", "@));
            } else {
                assert(out@ =~= " | "@ + spec_join(views.take(1), ", "@));
            }
        }
        i += 1;
    }
    assert(views.take(parts@.len() as int) =~= views);
    assert(views =~= gparts);
    out
}

/// The resolved 0-based media index: the 1-based `img_index` shifted down,
/// clamped to the media list.
pub open spec fn spec_resolved_index(count: int, img_index: Option<usize>) -> int {
    let base: int = match img_index {
        Some(i) => if i >= 1 {
            i - 1
        } else {
            0
        },
        None => 0,
    };
    let maxi: int = if count >= 1 {
        count - 1
    } else {
        0
    };
    if base <= maxi {
        base
    } else {
        maxi
    }
}

/// The media-specific meta tags for the selected item.
pub open spec fn spec_media_tags(m: MediaV) -> Seq<char> {
    let width_str = spec_dec_digits(
        (match m.width {
            Some(w) => w,
            None => 0,
        }) as nat,
    );
    let height_str = spec_dec_digits(
        (match m.height {
            Some(h) => h,
            None => 0,
        }) as nat,
    );
    if m.media_type == MediaType::Image {
        spec_meta_tag("property"@, "og:image"@, spec_escape_html(m.url)) + spec_meta_tag(
            "property"@,
            "og:image:width"@,
            width_str,
        ) + spec_meta_tag("property"@, "og:image:height"@, height_str) + spec_meta_tag(
            "name"@,
            "twitter:card"@,
            "summary_large_image"@,
        ) + spec_meta_tag("name"@, "twitter:image"@, spec_escape_html(m.url))
    } else {
        spec_meta_tag("property"@, "og:video"@, spec_escape_html(m.url)) + spec_meta_tag(
            "property"@,
            "og:video:type"@,
            "video/mp4"@,
        ) + spec_meta_tag("property"@, "og:video:width"@, width_str) + spec_meta_tag(
            "property"@,
            "og:video:height"@,
            height_str,
        ) + spec_meta_tag("name"@, "twitter:card"@, "player"@) + spec_meta_tag(
            "name"@,
            "twitter:player:stream"@,
            spec_escape_html(m.url),
        ) + spec_meta_tag("name"@, "twitter:player:stream:content_type"@, "video/mp4"@) + (
        match m.thumbnail_url {
            Some(t) => spec_meta_tag("property"@, "og:image"@, spec_escape_html(t)),
            None => Seq::empty(),
        })
    }
}

/// The document head of the embed page: the doctype opening and the five
/// core OpenGraph tags.
pub open spec fn spec_embed_head(
    title: Seq<char>,
    caption: Seq<char>,
    instagram_url: Seq<char>,
) -> Seq<char> {
    "<!DOCTYPE html>\n<html lang=\"en\">\n<head>\n<meta charset=\"utf-8\">\n"@ + spec_meta_tag(
        "property"@,
        "theme-color"@,
        "#E1306C"@,
    ) + spec_meta_tag("property"@, "og:site_name"@, "Cattgram"@) + spec_meta_tag(
        "property"@,
        "og:title"@,
        title,
    ) + spec_meta_tag("property"@, "og:description"@, caption) + spec_meta_tag(
        "property"@,
        "og:url"@,
        instagram_url,
    )
}

/// The closing part of the embed page: the oEmbed link, a refresh redirect
/// to the canonical post page, the title and the body.
pub open spec fn spec_embed_tail(oembed_url: Seq<char>, instagram_url: Seq<char>) -> Seq<char> {
    "<link rel=\"alternate\" href=\""@ + oembed_url
        + "\" type=\"application/json+oembed\">\n"@ + "<meta http-equiv=\"refresh\" content=\"0;url="@
        + instagram_url + "\">\n"@ + "<title>Cattgram</title>\n</head>\n<body>\n"@
        + "<p>Redirecting to Instagram...</p>\n"@ + "</body>\n</html>"@
}

/// The full embed page for a record: document head, the core OpenGraph
/// tags, the media tags for the selected item when there is one, the oEmbed
/// link, a refresh redirect to the canonical post page, and the body.
pub open spec fn spec_render_embed(
    d: InstaDataV,
    host: Seq<char>,
    img_index: Option<usize>,
) -> Seq<char> {
    let count = d.media.len() as int;
    let ri = spec_resolved_index(count, img_index);
    let username = spec_escape_html(d.username);
    let post_id = spec_escape_html(d.post_id);
    let caption = match d.caption {
        Some(c) => spec_escape_html(spec_truncate(c, 300)),
        None => Seq::empty(),
    };
    let stats = spec_escape_html(spec_stats_suffix(d, count, img_index));
    let title = "@"@ + username + stats;
    let instagram_url = "https://www.instagram.com/p/"@ + post_id + "/"@;
    let oembed_url = "https://"@ + spec_escape_html(host) + "/oembed?text=@"@ + username
        + "&amp;url=https://instagram.com/p/"@ + post_id;
    spec_embed_head(title, caption, instagram_url) + (if count > 0 {
        spec_media_tags(d.media[ri])
    } else {
        Seq::empty()
    }) + spec_embed_tail(oembed_url, instagram_url)
}

/// The media-specific meta tags of one media item.
fn media_tags_html(media: &crate::types::Media) -> (r: String)
    ensures
        r@ == spec_media_tags(media@),
{
    let mut html = String::new();
    let width_str = chars_to_string(
        &u64_to_dec_chars(
            (match media.width {
                Some(w) => w,
                None => 0,
            }) as u64,
        ),
    );
    let height_str = chars_to_string(
        &u64_to_dec_chars(
            (match media.height {
                Some(h) => h,
                None => 0,
            }) as u64,
        ),
    );
    match media.media_type {
        MediaType::Image => {
            let image_url = escape_html(media.url.as_str());
            push_meta(&mut html, "property", "og:image", image_url.as_str());
            push_meta(&mut html, "property", "og:image:width", width_str.as_str());
            push_meta(&mut html, "property", "og:image:height", height_str.as_str());
            push_meta(&mut html, "name", "twitter:card", "summary_large_image");
            push_meta(&mut html, "name", "twitter:image", image_url.as_str());
        },
        MediaType::Video => {
            let video_url = escape_html(media.url.as_str());
            push_meta(&mut html, "property", "og:video", video_url.as_str());
            push_meta(&mut html, "property", "og:video:type", "video/mp4");
            push_meta(&mut html, "property", "og:video:width", width_str.as_str());
            push_meta(&mut html, "property", "og:video:height", height_str.as_str());
            push_meta(&mut html, "name", "twitter:card", "player");
            push_meta(&mut html, "name", "twitter:player:stream", video_url.as_str());
            push_meta(&mut html, "name", "twitter:player:stream:content_type", "video/mp4");
            match &media.thumbnail_url {
                Some(thumbnail) => {
                    push_meta(
                        &mut html,
                        "property",
                        "og:image",
                        escape_html(thumbnail.as_str()).as_str(),
                    );
                },
                None => {},
            }
        },
    }
    assert(html@ =~= spec_media_tags(media@));
    html
}

/// Builds the document head of the embed page.
fn embed_head(title: &str, caption: &str, instagram_url: &str) -> (h: String)
    ensures
        h@ == spec_embed_head(title@, caption@, instagram_url@),
{
    let mut html = String::new();
    html.append("<!DOCTYPE html>\n<html lang=\"en\">\n<head>\n<meta charset=\"utf-8\">\n");
    push_meta(&mut html, "property", "theme-color", "#E1306C");
    push_meta(&mut html, "property", "og:site_name", "Cattgram");
    push_meta(&mut html, "property", "og:title", title);
    push_meta(&mut html, "property", "og:description", caption);
    push_meta(&mut html, "property", "og:url", instagram_url);
    assert(html@ =~= spec_embed_head(title@, caption@, instagram_url@));
    html
}

/// Appends the closing part of the embed page.
fn append_embed_tail(html: &mut String, oembed_url: &str, instagram_url: &str)
    ensures
        final(html)@ == old(html)@ + spec_embed_tail(oembed_url@, instagram_url@),
{
    html.append("<link rel=\"alternate\" href=\"");
    html.append(oembed_url);
    html.append("\" type=\"application/json+oembed\">\n");
    html.append("<meta http-equiv=\"refresh\" content=\"0;url=");
    html.append(instagram_url);
    html.append("\">\n");
    html.append("<title>Cattgram</title>\n</head>\n<body>\n");
    html.append("<p>Redirecting to Instagram...</p>\n");
    html.append("</body>\n</html>");
    assert(html@ =~= old(html)@ + spec_embed_tail(oembed_url@, instagram_url@));
}

/// Renders a full HTML embed page with OpenGraph and Twitter Card meta tags.
/// `img_index` is 1-based; out of range or absent, the first media item is
/// used.
pub fn render_embed(data: &InstaData, host: &str, img_index: Option<usize>) -> (r: String)
    ensures
        r@ == spec_render_embed(data@, host@, img_index),
{
    let media_count = data.media.len();
    let base: usize = match img_index {
        Some(i) => if i >= 1 {
            i - 1
        } else {
            0
        },
        None => 0,
    };
    let maxi: usize = if media_count >= 1 {
        media_count - 1
    } else {
        0
    };
    let resolved_index: usize = if base <= maxi {
        base
    } else {
        maxi
    };
    assert(resolved_index as int == spec_resolved_index(media_count as int, img_index));

    let username = escape_html(data.username.as_str());
    let post_id = escape_html(data.post_id.as_str());

    let caption: String = match &data.caption {
        Some(c) => escape_html(truncate(c.as_str(), 300).as_str()),
        None => String::new(),
    };

    let stats_suffix = escape_html(build_stats_suffix(data, media_count, img_index).as_str());
    let mut title = String::from_str("@");
    title.append(username.as_str());
    title.append(stats_suffix.as_str());
    assert(title@ =~= "@"@ + spec_escape_html(data@.username) + spec_escape_html(
        spec_stats_suffix(data@, media_count as int, img_index),
    ));

    let mut instagram_url = String::from_str("https://www.instagram.com/p/");
    instagram_url.append(post_id.as_str());
    instagram_url.append("/");
    assert(instagram_url@ =~= "https://www.instagram.com/p/"@ + spec_escape_html(data@.post_id)
        + "/"@);

    let mut oembed_url = String::from_str("https://");
    oembed_url.append(escape_html(host).as_str());
    oembed_url.append("/oembed?text=@");
    oembed_url.append(username.as_str());
    oembed_url.append("&amp;url=https://instagram.com/p/");
    oembed_url.append(post_id.as_str());
    assert(oembed_url@ =~= "https://"@ + spec_escape_html(host@) + "/oembed?text=@"@
        + spec_escape_html(data@.username) + "&amp;url=https://instagram.com/p/"@
        + spec_escape_html(data@.post_id));

    let mut html = embed_head(title.as_str(), caption.as_str(), instagram_url.as_str());
    let ghost head_part = html@;
    if media_count > 0 {
        let tags = media_tags_html(&data.media[resolved_index]);
        html.append(tags.as_str());
    }
    let ghost with_media = html@;
    assert(with_media == head_part + (if media_count > 0 {
        spec_media_tags(data@.media[resolved_index as int])
    } else {
        Seq::<char>::empty()
    })) by {
        if media_count > 0 {
            assert(data@.media[resolved_index as int] == data.media@[resolved_index as int]@);
        } else {
            assert(head_part + Seq::<char>::empty() =~= head_part);
        }
    }

    append_embed_tail(&mut html, oembed_url.as_str(), instagram_url.as_str());

    proof {
        assert(html@ == spec_render_embed(data@, host@, img_index));
    }
    html
}

} // verus!
