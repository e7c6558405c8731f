//! Reading coffee listings: the request headers the scraper sends, and the
//! reduction of a listing page to its visible text.
use vstd::prelude::*;
use crate::services::html::{select_attributes, select_inner_html, selected_attributes, selected_inner_html};
use crate::text::{
    push_chars, str_equal,
    char_is_whitespace, chars_end_with, chars_find, chars_of, chars_remove, chars_slice, chars_trim,
    contains_text, ends_with, find_from, find_text, is_white_space, occurs_at, remove_char,
    string_of_chars, trim, trim_end, trim_start,
};

verus! {

/// Where the scan of a page stands after some of its characters: the text
/// kept so far, whether it is inside a tag, inside a script or style block,
/// right after kept white space, and whether it has reached the end marker.
pub ghost struct StripState {
    pub result: Seq<char>,
    pub inside: bool,
    pub skip: bool,
    pub skip_ws: bool,
    pub stopped: bool,
}

/// The text after which the rest of a listing page is other products.
pub open spec fn more_marker() -> Seq<char> {
    "You may also like ..."@
}

/// The table residue that precedes the description of a listing.
pub open spec fn start_trim_marker() -> Seq<char> {
    " 0 --          0 -- "@
}

/// Whether the characters seen so far end by opening a script, style or
/// noscript block.
pub open spec fn opens_skipped_block(seen: Seq<char>) -> bool {
    ends_with(seen, "<script"@) || ends_with(seen, "<style"@) || ends_with(seen, "<noscript"@)
}

/// Whether the characters seen so far end by closing a script, style or
/// noscript block.
pub open spec fn closes_skipped_block(seen: Seq<char>) -> bool {
    ends_with(seen, "</script>"@) || ends_with(seen, "</style>"@) || ends_with(seen, "</noscript>"@)
}

/// One step of the scan: `c` is the last character of `seen`. A `<` enters
/// a tag and a `>` leaves it, writing a space; any other character is kept
/// when it is outside tags and skipped blocks and is not white space that
/// follows kept white space.
pub open spec fn strip_step(seen: Seq<char>, st: StripState, c: char) -> StripState {
    let skip = if closes_skipped_block(seen) {
        false
    } else if opens_skipped_block(seen) {
        true
    } else {
        st.skip
    };
    let skip_ws = if is_white_space(c) {
        st.skip_ws
    } else {
        false
    };
    let stopped = ends_with(seen, more_marker());
    if c == '<' {
        StripState { result: st.result, inside: true, skip, skip_ws, stopped }
    } else if c == '>' {
        StripState { result: st.result.push(' '), inside: false, skip, skip_ws, stopped }
    } else if !st.inside && !skip && !skip_ws {
        StripState {
            result: st.result.push(c),
            inside: st.inside,
            skip,
            skip_ws: is_white_space(c),
            stopped,
        }
    } else {
        StripState { result: st.result, inside: st.inside, skip, skip_ws, stopped }
    }
}

/// The scan after the first `n` characters of `html`; it stops at the
/// character that completes the end marker.
pub open spec fn strip_scan(html: Seq<char>, n: nat) -> StripState
    decreases n,
{
    if n == 0 {
        StripState { result: Seq::empty(), inside: false, skip: false, skip_ws: false, stopped: false }
    } else {
        let prev = strip_scan(html, (n - 1) as nat);
        if prev.stopped {
            prev
        } else {
            strip_step(html.take(n as int), prev, html[n - 1])
        }
    }
}

/// The visible text of a listing page: the scanned text without line
/// breaks, cut before the first end marker, started after the first table
/// residue, and trimmed.
pub open spec fn stripped_text(html: Seq<char>) -> Seq<char> {
    let joined = remove_char(strip_scan(html, html.len()).result, '\n');
    let cut = match find_text(joined, more_marker()) {
        Some(i) => joined.take(i as int),
        None => joined,
    };
    let started = match find_text(cut, start_trim_marker()) {
        Some(i) => cut.skip((i + start_trim_marker().len()) as int),
        None => cut,
    };
    trim(started)
}

/// Once the scan has stopped, later characters change nothing.
pub proof fn lemma_scan_stays_stopped(html: Seq<char>, k: nat, n: nat)
    requires
        k <= n,
        strip_scan(html, k).stopped,
    ensures
        strip_scan(html, n) == strip_scan(html, k),
    decreases n,
{
    if n > k {
        lemma_scan_stays_stopped(html, k, (n - 1) as nat);
    }
}

/// A search result is an occurrence, and no earlier one exists.
pub proof fn lemma_find_from_is_first(s: Seq<char>, p: Seq<char>, i: nat)
    ensures
        match find_from(s, p, i) {
            Some(j) => i <= j && occurs_at(s, p, j as int) && forall|k: int|
                i <= k < j ==> !#[trigger] occurs_at(s, p, k),
            None => forall|k: int| i <= k ==> !#[trigger] occurs_at(s, p, k),
        },
    decreases s.len() + 1 - i,
{
    if i + p.len() > s.len() {
    } else if occurs_at(s, p, i as int) {
    } else {
        lemma_find_from_is_first(s, p, i + 1);
    }
}

/// Every character of `s` satisfies `p`.
pub open spec fn all_chars(s: Seq<char>, p: spec_fn(char) -> bool) -> bool {
    forall|i: int| 0 <= i < s.len() ==> p(#[trigger] s[i])
}

/// A character that the scan never keeps: a tag delimiter.
pub open spec fn is_tag_char(c: char) -> bool {
    c == '<' || c == '>'
}

proof fn lemma_scan_keeps_no_tag_chars(html: Seq<char>, n: nat)
    requires
        n <= html.len(),
    ensures
        all_chars(strip_scan(html, n).result, |c: char| !is_tag_char(c)),
    decreases n,
{
    if n > 0 {
        lemma_scan_keeps_no_tag_chars(html, (n - 1) as nat);
    }
}

proof fn lemma_remove_char_keeps(s: Seq<char>, c: char, p: spec_fn(char) -> bool)
    requires
        all_chars(s, p),
    ensures
        all_chars(remove_char(s, c), |x: char| p(x) && x != c),
    decreases s.len(),
{
    if s.len() > 0 {
        lemma_remove_char_keeps(s.drop_last(), c, p);
    }
}

proof fn lemma_trim_is_subrange(s: Seq<char>)
    ensures
        exists|a: int, b: int| 0 <= a <= b <= s.len() && trim(s) == s.subrange(a, b),
{
    lemma_trim_start_is_suffix(s);
    let a = (s.len() - trim_start(s).len()) as int;
    lemma_trim_end_is_prefix(trim_start(s));
    let b = a + trim(s).len();
    assert(trim(s) =~= s.subrange(a, b));
}

proof fn lemma_trim_start_is_suffix(s: Seq<char>)
    ensures
        trim_start(s).len() <= s.len(),
        trim_start(s) == s.skip(s.len() - trim_start(s).len()),
        trim_start(s).len() > 0 ==> !is_white_space(trim_start(s)[0]),
    decreases s.len(),
{
    if s.len() > 0 && is_white_space(s[0]) {
        lemma_trim_start_is_suffix(s.drop_first());
        assert(s.drop_first().skip(s.drop_first().len() - trim_start(s).len()) =~= s.skip(
            s.len() - trim_start(s).len(),
        ));
    } else {
        assert(s.skip(0) =~= s);
    }
}

proof fn lemma_trim_end_is_prefix(s: Seq<char>)
    ensures
        trim_end(s).len() <= s.len(),
        trim_end(s) == s.take(trim_end(s).len() as int),
        trim_end(s).len() > 0 ==> !is_white_space(trim_end(s).last()),
    decreases s.len(),
{
    if s.len() > 0 && is_white_space(s.last()) {
        lemma_trim_end_is_prefix(s.drop_last());
        assert(s.drop_last().take(trim_end(s).len() as int) =~= s.take(trim_end(s).len() as int));
    } else {
        assert(s.take(s.len() as int) =~= s);
    }
}

proof fn lemma_subrange_keeps_absence(s: Seq<char>, p: Seq<char>, a: int, b: int)
    requires
        0 <= a <= b <= s.len(),
        !contains_text(s, p),
    ensures
        !contains_text(s.subrange(a, b), p),
{
    if contains_text(s.subrange(a, b), p) {
        let k = choose|k: int| occurs_at(s.subrange(a, b), p, k);
        assert(s.subrange(a + k, a + k + p.len()) =~= s.subrange(a, b).subrange(k, k + p.len()));
        assert(occurs_at(s, p, a + k));
    }
}

/// The visible text of a page holds no tag delimiter (`<`, `>`) and no line
/// break.
pub proof fn lemma_stripped_text_has_no_markup(html: Seq<char>)
    ensures
        forall|i: int|
            0 <= i < stripped_text(html).len() ==> {
                let c = #[trigger] stripped_text(html)[i];
                c != '<' && c != '>' && c != '\n'
            },
{
    let scanned = strip_scan(html, html.len()).result;
    lemma_scan_keeps_no_tag_chars(html, html.len());
    let p = |c: char| !is_tag_char(c);
    lemma_remove_char_keeps(scanned, '\n', p);
    let joined = remove_char(scanned, '\n');
    let q = |x: char| p(x) && x != '\n';
    assert(all_chars(joined, q));
    let cut = match find_text(joined, more_marker()) {
        Some(i) => joined.take(i as int),
        None => joined,
    };
    lemma_find_from_is_first(joined, more_marker(), 0);
    assert forall|i: int| 0 <= i < cut.len() implies q(#[trigger] cut[i]) by {
        assert(cut[i] == joined[i]);
    }
    let started = match find_text(cut, start_trim_marker()) {
        Some(i) => cut.skip((i + start_trim_marker().len()) as int),
        None => cut,
    };
    lemma_find_from_is_first(cut, start_trim_marker(), 0);
    let off: int = match find_text(cut, start_trim_marker()) {
        Some(i) => (i + start_trim_marker().len()) as int,
        None => 0,
    };
    assert forall|i: int| 0 <= i < started.len() implies q(#[trigger] started[i]) by {
        assert(started[i] == cut[i + off]);
    }
    lemma_trim_is_subrange(started);
    let (a, b) = choose|a: int, b: int|
        0 <= a <= b <= started.len() && trim(started) == started.subrange(a, b);
    assert forall|i: int| 0 <= i < trim(started).len() implies q(#[trigger] trim(started)[i]) by {
        assert(trim(started)[i] == started[i + a]);
    }
}

/// The visible text of a page neither starts nor ends with white space.
pub proof fn lemma_stripped_text_is_trimmed(html: Seq<char>)
    ensures
        stripped_text(html).len() > 0 ==> !is_white_space(stripped_text(html)[0])
            && !is_white_space(stripped_text(html).last()),
{
    let joined = remove_char(strip_scan(html, html.len()).result, '\n');
    let cut = match find_text(joined, more_marker()) {
        Some(i) => joined.take(i as int),
        None => joined,
    };
    let started = match find_text(cut, start_trim_marker()) {
        Some(i) => cut.skip((i + start_trim_marker().len()) as int),
        None => cut,
    };
    lemma_trim_start_is_suffix(started);
    lemma_trim_end_is_prefix(trim_start(started));
}

/// The visible text of a page never holds the "You may also like ..."
/// marker: everything from its first occurrence on is cut.
pub proof fn lemma_stripped_text_excludes_more_marker(html: Seq<char>)
    ensures
        !contains_text(stripped_text(html), more_marker()),
{
    reveal_strlit("You may also like ...");
    let m = more_marker();
    let joined = remove_char(strip_scan(html, html.len()).result, '\n');
    lemma_find_from_is_first(joined, m, 0);
    let cut = match find_text(joined, m) {
        Some(i) => joined.take(i as int),
        None => joined,
    };
    match find_text(joined, m) {
        Some(i) => {
            if contains_text(cut, m) {
                let k = choose|k: int| occurs_at(cut, m, k);
                assert(joined.subrange(k, k + m.len()) =~= cut.subrange(k, k + m.len()));
                assert(occurs_at(joined, m, k));
            }
        },
        None => {},
    }
    assert(!contains_text(cut, m));
    let started = match find_text(cut, start_trim_marker()) {
        Some(i) => cut.skip((i + start_trim_marker().len()) as int),
        None => cut,
    };
    lemma_find_from_is_first(cut, start_trim_marker(), 0);
    match find_text(cut, start_trim_marker()) {
        Some(i) => {
            lemma_subrange_keeps_absence(cut, m, (i + start_trim_marker().len()) as int, cut.len() as int);
        },
        None => {},
    }
    assert(!contains_text(started, m));
    lemma_trim_is_subrange(started);
    let (a, b) = choose|a: int, b: int| 0 <= a <= b <= started.len() && trim(started) == started.subrange(a, b);
    lemma_subrange_keeps_absence(started, m, a, b);
}

/// Plain text: no tag delimiter, no line break, no two white-space
/// characters in a row, and no "You may also like ..." marker.
pub open spec fn is_plain_text(s: Seq<char>) -> bool {
    &&& forall|i: int| 0 <= i < s.len() ==> #[trigger] s[i] != '<' && s[i] != '>' && s[i] != '\n'
    &&& forall|i: int|
        0 <= i < s.len() - 1 ==> !(is_white_space(#[trigger] s[i]) && is_white_space(s[i + 1]))
    &&& !contains_text(s, more_marker())
}

/// A text that ends with `p`, whose first character is `first`, holds
/// `first` at the start of that ending.
proof fn lemma_ending_starts_with(seen: Seq<char>, p: Seq<char>, first: char)
    requires
        p.len() > 0,
        p[0] == first,
        ends_with(seen, p),
    ensures
        seen[seen.len() - p.len()] == first,
{
    assert(seen.subrange(seen.len() - p.len(), seen.len() as int)[0] == p[0]);
}

/// On plain text, the scan keeps every character it has read and is never
/// inside a tag or a skipped block.
proof fn lemma_plain_scan(s: Seq<char>, n: nat)
    requires
        is_plain_text(s),
        n <= s.len(),
    ensures
        strip_scan(s, n) == (StripState {
            result: s.take(n as int),
            inside: false,
            skip: false,
            skip_ws: n > 0 && is_white_space(s[n - 1]),
            stopped: false,
        }),
    decreases n,
{
    if n > 0 {
        lemma_plain_scan(s, (n - 1) as nat);
        let seen = s.take(n as int);
        let c = s[n - 1];
        reveal_strlit("<script");
        reveal_strlit("<style");
        reveal_strlit("<noscript");
        reveal_strlit("</script>");
        reveal_strlit("</style>");
        reveal_strlit("</noscript>");
        if ends_with(seen, "<script"@) {
            lemma_ending_starts_with(seen, "<script"@, '<');
            assert(s[seen.len() - 7] == '<');
        }
        if ends_with(seen, "<style"@) {
            lemma_ending_starts_with(seen, "<style"@, '<');
            assert(s[seen.len() - 6] == '<');
        }
        if ends_with(seen, "<noscript"@) {
            lemma_ending_starts_with(seen, "<noscript"@, '<');
            assert(s[seen.len() - 9] == '<');
        }
        if ends_with(seen, "</script>"@) {
            lemma_ending_starts_with(seen, "</script>"@, '<');
            assert(s[seen.len() - 9] == '<');
        }
        if ends_with(seen, "</style>"@) {
            lemma_ending_starts_with(seen, "</style>"@, '<');
            assert(s[seen.len() - 8] == '<');
        }
        if ends_with(seen, "</noscript>"@) {
            lemma_ending_starts_with(seen, "</noscript>"@, '<');
            assert(s[seen.len() - 11] == '<');
        }
        if ends_with(seen, more_marker()) {
            let k = seen.len() - more_marker().len();
            assert(s.subrange(k, k + more_marker().len()) =~= seen.subrange(k, seen.len() as int));
            assert(occurs_at(s, more_marker(), k));
        }
        if n > 1 {
            assert(!(is_white_space(s[n - 2]) && is_white_space(s[n - 2 + 1])));
        }
        assert(s.take(n - 1).push(c) =~= seen);
    } else {
        assert(s.take(0) =~= Seq::<char>::empty());
    }
}

proof fn lemma_remove_absent_char(s: Seq<char>, c: char)
    requires
        forall|i: int| 0 <= i < s.len() ==> #[trigger] s[i] != c,
    ensures
        remove_char(s, c) == s,
    decreases s.len(),
{
    if s.len() > 0 {
        lemma_remove_absent_char(s.drop_last(), c);
        assert(s.drop_last().push(s.last()) =~= s);
    }
}

/// Plain, single-spaced text passes through the stripper unchanged apart
/// from trimming.
pub proof fn lemma_plain_text_passes_through(s: Seq<char>)
    requires
        is_plain_text(s),
    ensures
        stripped_text(s) == trim(s),
{
    lemma_plain_scan(s, s.len());
    assert(s.take(s.len() as int) =~= s);
    lemma_remove_absent_char(s, '\n');
    lemma_find_from_is_first(s, more_marker(), 0);
    lemma_find_from_is_first(s, start_trim_marker(), 0);
    reveal_strlit(" 0 --          0 -- ");
    match find_text(s, start_trim_marker()) {
        Some(j) => {
            let k = j as int;
            assert(s.subrange(k, k + start_trim_marker().len())[5] == ' ');
            assert(s.subrange(k, k + start_trim_marker().len())[6] == ' ');
            assert(s[k + 5] == ' ' && s[k + 6] == ' ');
            assert(!(is_white_space(s[k + 5]) && is_white_space(s[k + 5 + 1])));
        },
        None => {},
    }
}

/// The request headers the scraper sends, as (lowercase name, value) pairs,
/// in the order they are set: a desktop browser asking for the coffee site.
pub open spec fn default_headers() -> Seq<(Seq<char>, Seq<char>)> {
    seq![
        ("host"@, "www.sweetmarias.com"@),
        ("user-agent"@, "Mozilla/5.0 (Windows NT 10.0; Win64; x64) AppleWebKit/537.36 (KHTML, like Gecko) Chrome/91.0.4472.124 Safari/537.36"@),
        ("accept"@, "text/html,application/xhtml+xml,application/xml;q=0.9,image/webp,image/apng,*/*;q=0.8,application/signed-exchange;v=b3;q=0.9"@),
        ("accept-encoding"@, "gzip, deflate, br"@),
        ("accept-language"@, "en-US,en;q=0.9"@),
        ("dnt"@, "1"@),
        ("connection"@, "keep-alive"@),
        ("upgrade-insecure-requests"@, "1"@),
        ("sec-fetch-dest"@, "document"@),
        ("sec-fetch-mode"@, "navigate"@),
        ("sec-fetch-site"@, "none"@),
        ("sec-fetch-user"@, "?1"@),
        ("cache-control"@, "max-age=0"@),
    ]
}

/// The details read from a listing page: for each, its name and the CSS
/// selector of the table cell (or element) that holds it.
pub open spec fn detail_fields() -> Seq<(Seq<char>, Seq<char>)> {
    seq![
        ("region"@, "td[data-th='Region']"@),
        ("processing"@, "td[data-th='Processing']"@),
        ("drying"@, "td[data-th='Drying Method']"@),
        ("arrival"@, "td[data-th='Arrival date']"@),
        ("lot_size"@, "td[data-th='Lot size']"@),
        ("bag_size"@, "td[data-th='Bag size']"@),
        ("packaging"@, "td[data-th='Packaging']"@),
        ("farm_gate"@, "td[data-th='Farm Gate']"@),
        ("cultivar_detail"@, "td[data-th='Cultivar Detail']"@),
        ("grade"@, "td[data-th='Grade']"@),
        ("appearance"@, "td[data-th='Appearance']"@),
        ("roast_rec"@, "td[data-th='Roast Recommendations']"@),
        ("coffee_type"@, "td[data-th='Type']"@),
        ("spro_rec"@, "td[data-th='Recommended for Espresso']"@),
        ("score"@, "div.score-value"@),
    ]
}

/// The values that are present, in order.
pub open spec fn present_values(values: Seq<Option<Seq<char>>>) -> Seq<Seq<char>>
    decreases values.len(),
{
    if values.len() == 0 {
        Seq::empty()
    } else {
        let rest = present_values(values.drop_last());
        match values.last() {
            Some(v) => rest.push(v),
            None => rest,
        }
    }
}

/// The links of a directory page: the `href` of every product link, in
/// document order (none if the selector were not to parse).
pub open spec fn directory_links(html: Seq<char>) -> Seq<Seq<char>> {
    match selected_attributes(html, "a.product-item-link"@, "href"@) {
        Some(values) => present_values(values),
        None => Seq::empty(),
    }
}

/// The pieces, each trimmed, one after the other.
pub open spec fn concat_trimmed(pieces: Seq<Seq<char>>) -> Seq<char>
    decreases pieces.len(),
{
    if pieces.len() == 0 {
        Seq::empty()
    } else {
        concat_trimmed(pieces.drop_last()) + trim(pieces.last())
    }
}

/// The text of one detail: the trimmed inner HTML of every element that the
/// selector matches, concatenated (empty when nothing matches).
pub open spec fn detail_text(html: Seq<char>, selector: Seq<char>) -> Seq<char> {
    match selected_inner_html(html, selector) {
        Some(pieces) => concat_trimmed(pieces),
        None => Seq::empty(),
    }
}

/// The details of the listing page `html`: each entry of `detail_fields`
/// with its text (see `detail_text`).
pub open spec fn listing_details(html: Seq<char>) -> Seq<(Seq<char>, Seq<char>)> {
    detail_fields().map_values(
        |field: (Seq<char>, Seq<char>)| (field.0, detail_text(html, field.1)),
    )
}

/// The value stored under `key` in a list of (name, value) pairs: that of
/// the first pair with that name, or the empty text when there is none.
pub open spec fn lookup_detail(details: Seq<(Seq<char>, Seq<char>)>, key: Seq<char>) -> Seq<char>
    decreases details.len(),
{
    if details.len() == 0 {
        Seq::empty()
    } else if details[0].0 == key {
        details[0].1
    } else {
        lookup_detail(details.drop_first(), key)
    }
}

/// The value under `key` is that of the first pair named `key`.
pub proof fn lemma_lookup_at(details: Seq<(Seq<char>, Seq<char>)>, key: Seq<char>, j: int)
    requires
        0 <= j < details.len(),
        details[j].0 == key,
        forall|i: int| 0 <= i < j ==> #[trigger] details[i].0 != key,
    ensures
        lookup_detail(details, key) == details[j].1,
    decreases j,
{
    if j > 0 {
        assert(details[0].0 != key);
        assert forall|i: int| 0 <= i < j - 1 implies #[trigger] details.drop_first()[i].0 != key by {
            assert(details.drop_first()[i] == details[i + 1]);
        }
        lemma_lookup_at(details.drop_first(), key, j - 1);
    }
}

/// A name that no pair has reads as empty text.
pub proof fn lemma_lookup_absent(details: Seq<(Seq<char>, Seq<char>)>, key: Seq<char>)
    requires
        forall|i: int| 0 <= i < details.len() ==> #[trigger] details[i].0 != key,
    ensures
        lookup_detail(details, key) == Seq::<char>::empty(),
    decreases details.len(),
{
    if details.len() > 0 {
        assert(details[0].0 != key);
        assert forall|i: int| 0 <= i < details.len() - 1 implies #[trigger] details.drop_first()[i].0
            != key by {
            assert(details.drop_first()[i] == details[i + 1]);
        }
        lemma_lookup_absent(details.drop_first(), key);
    }
}

/// The text of a detail is the text of its matched elements, each trimmed,
/// one after the other: the pieces of two runs of matches concatenate.
pub proof fn lemma_concat_trimmed_append(a: Seq<Seq<char>>, b: Seq<Seq<char>>)
    ensures
        concat_trimmed(a + b) == concat_trimmed(a) + concat_trimmed(b),
    decreases b.len(),
{
    if b.len() == 0 {
        assert(a + b =~= a);
        assert(concat_trimmed(a) + Seq::<char>::empty() =~= concat_trimmed(a));
    } else {
        lemma_concat_trimmed_append(a, b.drop_last());
        assert((a + b).drop_last() =~= a + b.drop_last());
        assert(concat_trimmed(a) + concat_trimmed(b.drop_last()) + trim(b.last()) =~= concat_trimmed(
            a,
        ) + (concat_trimmed(b.drop_last()) + trim(b.last())));
    }
}

/// A detail matched by one element is that element's inner HTML trimmed; a
/// detail matched by nothing is empty.
pub proof fn lemma_detail_text_of_one_match(html: Seq<char>, selector: Seq<char>, piece: Seq<char>)
    ensures
        selected_inner_html(html, selector) == Some(seq![piece]) ==> detail_text(html, selector)
            == trim(piece),
        selected_inner_html(html, selector) == Some(Seq::<Seq<char>>::empty()) ==> detail_text(
            html,
            selector,
        ) == Seq::<char>::empty(),
{
    let one = seq![piece];
    assert(one.drop_last() =~= Seq::<Seq<char>>::empty());
    assert(concat_trimmed(one.drop_last()) == Seq::<char>::empty());
    assert(concat_trimmed(one) == concat_trimmed(one.drop_last()) + trim(one.last()));
    assert(Seq::<char>::empty() + trim(piece) =~= trim(piece));
}

/// The links of a directory page are the `href` values that are present,
/// in order: present values are all kept, missing ones dropped, and runs of
/// values concatenate.
pub proof fn lemma_present_values_laws(a: Seq<Option<Seq<char>>>, b: Seq<Option<Seq<char>>>, links: Seq<Seq<char>>)
    ensures
        present_values(a + b) == present_values(a) + present_values(b),
        present_values(links.map_values(|l: Seq<char>| Some(l))) == links,
        present_values(Seq::new(a.len(), |i: int| None::<Seq<char>>)) == Seq::<Seq<char>>::empty(),
    decreases b.len() + links.len() + a.len(),
{
    if b.len() > 0 {
        lemma_present_values_laws(a, b.drop_last(), Seq::empty());
        assert((a + b).drop_last() =~= a + b.drop_last());
        match b.last() {
            Some(v) => {
                assert(present_values(a) + present_values(b.drop_last()).push(v) =~= (present_values(a)
                    + present_values(b.drop_last())).push(v));
            },
            None => {},
        }
    } else {
        assert(a + b =~= a);
        assert(present_values(a) + Seq::<Seq<char>>::empty() =~= present_values(a));
    }
    if links.len() > 0 {
        lemma_present_values_laws(Seq::empty(), Seq::empty(), links.drop_last());
        assert(links.map_values(|l: Seq<char>| Some(l)).drop_last() =~= links.drop_last().map_values(
            |l: Seq<char>| Some(l),
        ));
        assert(links.drop_last().push(links.last()) =~= links);
    } else {
        assert(links.map_values(|l: Seq<char>| Some(l)) =~= Seq::<Option<Seq<char>>>::empty());
    }
    if a.len() > 0 {
        let nones = Seq::new(a.len(), |i: int| None::<Seq<char>>);
        lemma_present_values_laws(a.drop_last(), Seq::empty(), Seq::empty());
        assert(nones.drop_last() =~= Seq::new(a.drop_last().len(), |i: int| None::<Seq<char>>));
    } else {
        assert(Seq::new(a.len(), |i: int| None::<Seq<char>>) =~= Seq::<Option<Seq<char>>>::empty());
    }
}

/// Each detail of a listing page is the text of the cell labelled for it:
/// the region is read from the `Region` cells, the lot size from the
/// `Lot size` cells, the bag size from the `Bag size` cells, and so on, and
/// the score from the score element.
pub proof fn lemma_details_read_their_own_cells(html: Seq<char>)
    ensures
        lookup_detail(listing_details(html), "region"@) == detail_text(html, "td[data-th='Region']"@),
        lookup_detail(listing_details(html), "processing"@) == detail_text(html, "td[data-th='Processing']"@),
        lookup_detail(listing_details(html), "drying"@) == detail_text(html, "td[data-th='Drying Method']"@),
        lookup_detail(listing_details(html), "arrival"@) == detail_text(html, "td[data-th='Arrival date']"@),
        lookup_detail(listing_details(html), "lot_size"@) == detail_text(html, "td[data-th='Lot size']"@),
        lookup_detail(listing_details(html), "bag_size"@) == detail_text(html, "td[data-th='Bag size']"@),
        lookup_detail(listing_details(html), "packaging"@) == detail_text(html, "td[data-th='Packaging']"@),
        lookup_detail(listing_details(html), "farm_gate"@) == detail_text(html, "td[data-th='Farm Gate']"@),
        lookup_detail(listing_details(html), "cultivar_detail"@) == detail_text(html, "td[data-th='Cultivar Detail']"@),
        lookup_detail(listing_details(html), "grade"@) == detail_text(html, "td[data-th='Grade']"@),
        lookup_detail(listing_details(html), "appearance"@) == detail_text(html, "td[data-th='Appearance']"@),
        lookup_detail(listing_details(html), "roast_rec"@) == detail_text(html, "td[data-th='Roast Recommendations']"@),
        lookup_detail(listing_details(html), "coffee_type"@) == detail_text(html, "td[data-th='Type']"@),
        lookup_detail(listing_details(html), "spro_rec"@) == detail_text(html, "td[data-th='Recommended for Espresso']"@),
        lookup_detail(listing_details(html), "score"@) == detail_text(html, "div.score-value"@),
{
    reveal_strlit("region");
    reveal_strlit("processing");
    reveal_strlit("drying");
    reveal_strlit("arrival");
    reveal_strlit("lot_size");
    reveal_strlit("bag_size");
    reveal_strlit("packaging");
    reveal_strlit("farm_gate");
    reveal_strlit("cultivar_detail");
    reveal_strlit("grade");
    reveal_strlit("appearance");
    reveal_strlit("roast_rec");
    reveal_strlit("coffee_type");
    reveal_strlit("spro_rec");
    reveal_strlit("score");
    let d = listing_details(html);
    assert(d[0].0 == "region"@);
    assert(d[1].0 == "processing"@);
    assert(d[2].0 == "drying"@);
    assert(d[3].0 == "arrival"@);
    assert(d[4].0 == "lot_size"@);
    assert(d[5].0 == "bag_size"@);
    assert(d[6].0 == "packaging"@);
    assert(d[7].0 == "farm_gate"@);
    assert(d[8].0 == "cultivar_detail"@);
    assert(d[9].0 == "grade"@);
    assert(d[10].0 == "appearance"@);
    assert(d[11].0 == "roast_rec"@);
    assert(d[12].0 == "coffee_type"@);
    assert(d[13].0 == "spro_rec"@);
    assert(d[14].0 == "score"@);
    lemma_lookup_at(d, "region"@, 0);
    assert forall|i: int| 0 <= i < 1 implies #[trigger] d[i].0 != "processing"@ by {
        if i == 0 {
            assert(d[i].0.len() != "processing"@.len() || d[i].0[0] != "processing"@[0]);
        }
    }
    lemma_lookup_at(d, "processing"@, 1);
    assert forall|i: int| 0 <= i < 2 implies #[trigger] d[i].0 != "drying"@ by {
        if i == 0 {
            assert(d[i].0.len() != "drying"@.len() || d[i].0[0] != "drying"@[0]);
        } else if i == 1 {
            assert(d[i].0.len() != "drying"@.len() || d[i].0[0] != "drying"@[0]);
        }
    }
    lemma_lookup_at(d, "drying"@, 2);
    assert forall|i: int| 0 <= i < 3 implies #[trigger] d[i].0 != "arrival"@ by {
        if i == 0 {
            assert(d[i].0.len() != "arrival"@.len() || d[i].0[0] != "arrival"@[0]);
        } else if i == 1 {
            assert(d[i].0.len() != "arrival"@.len() || d[i].0[0] != "arrival"@[0]);
        } else if i == 2 {
            assert(d[i].0.len() != "arrival"@.len() || d[i].0[0] != "arrival"@[0]);
        }
    }
    lemma_lookup_at(d, "arrival"@, 3);
    assert forall|i: int| 0 <= i < 4 implies #[trigger] d[i].0 != "lot_size"@ by {
        if i == 0 {
            assert(d[i].0.len() != "lot_size"@.len() || d[i].0[0] != "lot_size"@[0]);
        } else if i == 1 {
            assert(d[i].0.len() != "lot_size"@.len() || d[i].0[0] != "lot_size"@[0]);
        } else if i == 2 {
            assert(d[i].0.len() != "lot_size"@.len() || d[i].0[0] != "lot_size"@[0]);
        } else if i == 3 {
            assert(d[i].0.len() != "lot_size"@.len() || d[i].0[0] != "lot_size"@[0]);
        }
    }
    lemma_lookup_at(d, "lot_size"@, 4);
    assert forall|i: int| 0 <= i < 5 implies #[trigger] d[i].0 != "bag_size"@ by {
        if i == 0 {
            assert(d[i].0.len() != "bag_size"@.len() || d[i].0[0] != "bag_size"@[0]);
        } else if i == 1 {
            assert(d[i].0.len() != "bag_size"@.len() || d[i].0[0] != "bag_size"@[0]);
        } else if i == 2 {
            assert(d[i].0.len() != "bag_size"@.len() || d[i].0[0] != "bag_size"@[0]);
        } else if i == 3 {
            assert(d[i].0.len() != "bag_size"@.len() || d[i].0[0] != "bag_size"@[0]);
        } else if i == 4 {
            assert(d[i].0.len() != "bag_size"@.len() || d[i].0[0] != "bag_size"@[0]);
        }
    }
    lemma_lookup_at(d, "bag_size"@, 5);
    assert forall|i: int| 0 <= i < 6 implies #[trigger] d[i].0 != "packaging"@ by {
        if i == 0 {
            assert(d[i].0.len() != "packaging"@.len() || d[i].0[0] != "packaging"@[0]);
        } else if i == 1 {
            assert(d[i].0.len() != "packaging"@.len() || d[i].0[0] != "packaging"@[0]);
        } else if i == 2 {
            assert(d[i].0.len() != "packaging"@.len() || d[i].0[0] != "packaging"@[0]);
        } else if i == 3 {
            assert(d[i].0.len() != "packaging"@.len() || d[i].0[0] != "packaging"@[0]);
        } else if i == 4 {
            assert(d[i].0.len() != "packaging"@.len() || d[i].0[0] != "packaging"@[0]);
        } else if i == 5 {
            assert(d[i].0.len() != "packaging"@.len() || d[i].0[0] != "packaging"@[0]);
        }
    }
    lemma_lookup_at(d, "packaging"@, 6);
    assert forall|i: int| 0 <= i < 7 implies #[trigger] d[i].0 != "farm_gate"@ by {
        if i == 0 {
            assert(d[i].0.len() != "farm_gate"@.len() || d[i].0[0] != "farm_gate"@[0]);
        } else if i == 1 {
            assert(d[i].0.len() != "farm_gate"@.len() || d[i].0[0] != "farm_gate"@[0]);
        } else if i == 2 {
            assert(d[i].0.len() != "farm_gate"@.len() || d[i].0[0] != "farm_gate"@[0]);
        } else if i == 3 {
            assert(d[i].0.len() != "farm_gate"@.len() || d[i].0[0] != "farm_gate"@[0]);
        } else if i == 4 {
            assert(d[i].0.len() != "farm_gate"@.len() || d[i].0[0] != "farm_gate"@[0]);
        } else if i == 5 {
            assert(d[i].0.len() != "farm_gate"@.len() || d[i].0[0] != "farm_gate"@[0]);
        } else if i == 6 {
            assert(d[i].0.len() != "farm_gate"@.len() || d[i].0[0] != "farm_gate"@[0]);
        }
    }
    lemma_lookup_at(d, "farm_gate"@, 7);
    assert forall|i: int| 0 <= i < 8 implies #[trigger] d[i].0 != "cultivar_detail"@ by {
        if i == 0 {
            assert(d[i].0.len() != "cultivar_detail"@.len() || d[i].0[0] != "cultivar_detail"@[0]);
        } else if i == 1 {
            assert(d[i].0.len() != "cultivar_detail"@.len() || d[i].0[0] != "cultivar_detail"@[0]);
        } else if i == 2 {
            assert(d[i].0.len() != "cultivar_detail"@.len() || d[i].0[0] != "cultivar_detail"@[0]);
        } else if i == 3 {
            assert(d[i].0.len() != "cultivar_detail"@.len() || d[i].0[0] != "cultivar_detail"@[0]);
        } else if i == 4 {
            assert(d[i].0.len() != "cultivar_detail"@.len() || d[i].0[0] != "cultivar_detail"@[0]);
        } else if i == 5 {
            assert(d[i].0.len() != "cultivar_detail"@.len() || d[i].0[0] != "cultivar_detail"@[0]);
        } else if i == 6 {
            assert(d[i].0.len() != "cultivar_detail"@.len() || d[i].0[0] != "cultivar_detail"@[0]);
        } else if i == 7 {
            assert(d[i].0.len() != "cultivar_detail"@.len() || d[i].0[0] != "cultivar_detail"@[0]);
        }
    }
    lemma_lookup_at(d, "cultivar_detail"@, 8);
    assert forall|i: int| 0 <= i < 9 implies #[trigger] d[i].0 != "grade"@ by {
        if i == 0 {
            assert(d[i].0.len() != "grade"@.len() || d[i].0[0] != "grade"@[0]);
        } else if i == 1 {
            assert(d[i].0.len() != "grade"@.len() || d[i].0[0] != "grade"@[0]);
        } else if i == 2 {
            assert(d[i].0.len() != "grade"@.len() || d[i].0[0] != "grade"@[0]);
        } else if i == 3 {
            assert(d[i].0.len() != "grade"@.len() || d[i].0[0] != "grade"@[0]);
        } else if i == 4 {
            assert(d[i].0.len() != "grade"@.len() || d[i].0[0] != "grade"@[0]);
        } else if i == 5 {
            assert(d[i].0.len() != "grade"@.len() || d[i].0[0] != "grade"@[0]);
        } else if i == 6 {
            assert(d[i].0.len() != "grade"@.len() || d[i].0[0] != "grade"@[0]);
        } else if i == 7 {
            assert(d[i].0.len() != "grade"@.len() || d[i].0[0] != "grade"@[0]);
        } else if i == 8 {
            assert(d[i].0.len() != "grade"@.len() || d[i].0[0] != "grade"@[0]);
        }
    }
    lemma_lookup_at(d, "grade"@, 9);
    assert forall|i: int| 0 <= i < 10 implies #[trigger] d[i].0 != "appearance"@ by {
        if i == 0 {
            assert(d[i].0.len() != "appearance"@.len() || d[i].0[0] != "appearance"@[0]);
        } else if i == 1 {
            assert(d[i].0.len() != "appearance"@.len() || d[i].0[0] != "appearance"@[0]);
        } else if i == 2 {
            assert(d[i].0.len() != "appearance"@.len() || d[i].0[0] != "appearance"@[0]);
        } else if i == 3 {
            assert(d[i].0.len() != "appearance"@.len() || d[i].0[0] != "appearance"@[0]);
        } else if i == 4 {
            assert(d[i].0.len() != "appearance"@.len() || d[i].0[0] != "appearance"@[0]);
        } else if i == 5 {
            assert(d[i].0.len() != "appearance"@.len() || d[i].0[0] != "appearance"@[0]);
        } else if i == 6 {
            assert(d[i].0.len() != "appearance"@.len() || d[i].0[0] != "appearance"@[0]);
        } else if i == 7 {
            assert(d[i].0.len() != "appearance"@.len() || d[i].0[0] != "appearance"@[0]);
        } else if i == 8 {
            assert(d[i].0.len() != "appearance"@.len() || d[i].0[0] != "appearance"@[0]);
        } else if i == 9 {
            assert(d[i].0.len() != "appearance"@.len() || d[i].0[0] != "appearance"@[0]);
        }
    }
    lemma_lookup_at(d, "appearance"@, 10);
    assert forall|i: int| 0 <= i < 11 implies #[trigger] d[i].0 != "roast_rec"@ by {
        if i == 0 {
            assert(d[i].0.len() != "roast_rec"@.len() || d[i].0[0] != "roast_rec"@[0]);
        } else if i == 1 {
            assert(d[i].0.len() != "roast_rec"@.len() || d[i].0[0] != "roast_rec"@[0]);
        } else if i == 2 {
            assert(d[i].0.len() != "roast_rec"@.len() || d[i].0[0] != "roast_rec"@[0]);
        } else if i == 3 {
            assert(d[i].0.len() != "roast_rec"@.len() || d[i].0[0] != "roast_rec"@[0]);
        } else if i == 4 {
            assert(d[i].0.len() != "roast_rec"@.len() || d[i].0[0] != "roast_rec"@[0]);
        } else if i == 5 {
            assert(d[i].0.len() != "roast_rec"@.len() || d[i].0[0] != "roast_rec"@[0]);
        } else if i == 6 {
            assert(d[i].0.len() != "roast_rec"@.len() || d[i].0[0] != "roast_rec"@[0]);
        } else if i == 7 {
            assert(d[i].0.len() != "roast_rec"@.len() || d[i].0[0] != "roast_rec"@[0]);
        } else if i == 8 {
            assert(d[i].0.len() != "roast_rec"@.len() || d[i].0[0] != "roast_rec"@[0]);
        } else if i == 9 {
            assert(d[i].0.len() != "roast_rec"@.len() || d[i].0[0] != "roast_rec"@[0]);
        } else if i == 10 {
            assert(d[i].0.len() != "roast_rec"@.len() || d[i].0[0] != "roast_rec"@[0]);
        }
    }
    lemma_lookup_at(d, "roast_rec"@, 11);
    assert forall|i: int| 0 <= i < 12 implies #[trigger] d[i].0 != "coffee_type"@ by {
        if i == 0 {
            assert(d[i].0.len() != "coffee_type"@.len() || d[i].0[0] != "coffee_type"@[0]);
        } else if i == 1 {
            assert(d[i].0.len() != "coffee_type"@.len() || d[i].0[0] != "coffee_type"@[0]);
        } else if i == 2 {
            assert(d[i].0.len() != "coffee_type"@.len() || d[i].0[0] != "coffee_type"@[0]);
        } else if i == 3 {
            assert(d[i].0.len() != "coffee_type"@.len() || d[i].0[0] != "coffee_type"@[0]);
        } else if i == 4 {
            assert(d[i].0.len() != "coffee_type"@.len() || d[i].0[0] != "coffee_type"@[0]);
        } else if i == 5 {
            assert(d[i].0.len() != "coffee_type"@.len() || d[i].0[0] != "coffee_type"@[0]);
        } else if i == 6 {
            assert(d[i].0.len() != "coffee_type"@.len() || d[i].0[0] != "coffee_type"@[0]);
        } else if i == 7 {
            assert(d[i].0.len() != "coffee_type"@.len() || d[i].0[0] != "coffee_type"@[0]);
        } else if i == 8 {
            assert(d[i].0.len() != "coffee_type"@.len() || d[i].0[0] != "coffee_type"@[0]);
        } else if i == 9 {
            assert(d[i].0.len() != "coffee_type"@.len() || d[i].0[0] != "coffee_type"@[0]);
        } else if i == 10 {
            assert(d[i].0.len() != "coffee_type"@.len() || d[i].0[0] != "coffee_type"@[0]);
        } else if i == 11 {
            assert(d[i].0.len() != "coffee_type"@.len() || d[i].0[0] != "coffee_type"@[0]);
        }
    }
    lemma_lookup_at(d, "coffee_type"@, 12);
    assert forall|i: int| 0 <= i < 13 implies #[trigger] d[i].0 != "spro_rec"@ by {
        if i == 0 {
            assert(d[i].0.len() != "spro_rec"@.len() || d[i].0[0] != "spro_rec"@[0]);
        } else if i == 1 {
            assert(d[i].0.len() != "spro_rec"@.len() || d[i].0[0] != "spro_rec"@[0]);
        } else if i == 2 {
            assert(d[i].0.len() != "spro_rec"@.len() || d[i].0[0] != "spro_rec"@[0]);
        } else if i == 3 {
            assert(d[i].0.len() != "spro_rec"@.len() || d[i].0[0] != "spro_rec"@[0]);
        } else if i == 4 {
            assert(d[i].0.len() != "spro_rec"@.len() || d[i].0[0] != "spro_rec"@[0]);
        } else if i == 5 {
            assert(d[i].0.len() != "spro_rec"@.len() || d[i].0[0] != "spro_rec"@[0]);
        } else if i == 6 {
            assert(d[i].0.len() != "spro_rec"@.len() || d[i].0[0] != "spro_rec"@[0]);
        } else if i == 7 {
            assert(d[i].0.len() != "spro_rec"@.len() || d[i].0[0] != "spro_rec"@[0]);
        } else if i == 8 {
            assert(d[i].0.len() != "spro_rec"@.len() || d[i].0[0] != "spro_rec"@[0]);
        } else if i == 9 {
            assert(d[i].0.len() != "spro_rec"@.len() || d[i].0[0] != "spro_rec"@[0]);
        } else if i == 10 {
            assert(d[i].0.len() != "spro_rec"@.len() || d[i].0[0] != "spro_rec"@[0]);
        } else if i == 11 {
            assert(d[i].0.len() != "spro_rec"@.len() || d[i].0[0] != "spro_rec"@[0]);
        } else if i == 12 {
            assert(d[i].0.len() != "spro_rec"@.len() || d[i].0[0] != "spro_rec"@[0]);
        }
    }
    lemma_lookup_at(d, "spro_rec"@, 13);
    assert forall|i: int| 0 <= i < 14 implies #[trigger] d[i].0 != "score"@ by {
        if i == 0 {
            assert(d[i].0.len() != "score"@.len() || d[i].0[0] != "score"@[0]);
        } else if i == 1 {
            assert(d[i].0.len() != "score"@.len() || d[i].0[0] != "score"@[0]);
        } else if i == 2 {
            assert(d[i].0.len() != "score"@.len() || d[i].0[0] != "score"@[0]);
        } else if i == 3 {
            assert(d[i].0.len() != "score"@.len() || d[i].0[0] != "score"@[0]);
        } else if i == 4 {
            assert(d[i].0.len() != "score"@.len() || d[i].0[0] != "score"@[0]);
        } else if i == 5 {
            assert(d[i].0.len() != "score"@.len() || d[i].0[0] != "score"@[0]);
        } else if i == 6 {
            assert(d[i].0.len() != "score"@.len() || d[i].0[0] != "score"@[0]);
        } else if i == 7 {
            assert(d[i].0.len() != "score"@.len() || d[i].0[0] != "score"@[0]);
        } else if i == 8 {
            assert(d[i].0.len() != "score"@.len() || d[i].0[0] != "score"@[0]);
        } else if i == 9 {
            assert(d[i].0.len() != "score"@.len() || d[i].0[0] != "score"@[0]);
        } else if i == 10 {
            assert(d[i].0.len() != "score"@.len() || d[i].0[0] != "score"@[0]);
        } else if i == 11 {
            assert(d[i].0.len() != "score"@.len() || d[i].0[0] != "score"@[0]);
        } else if i == 12 {
            assert(d[i].0.len() != "score"@.len() || d[i].0[0] != "score"@[0]);
        } else if i == 13 {
            assert(d[i].0.len() != "score"@.len() || d[i].0[0] != "score"@[0]);
        }
    }
    lemma_lookup_at(d, "score"@, 14);
}

/// The scraper's view of the coffee site: the request headers it sends.
pub struct Scraper {
    headers: Vec<(String, String)>,
}

impl View for Scraper {
    type V = Seq<(Seq<char>, Seq<char>)>;

    /// The headers, as (name, value) pairs.
    closed spec fn view(&self) -> Seq<(Seq<char>, Seq<char>)> {
        self.headers.deep_view()
    }
}

fn header_pairs() -> (res: Vec<(&'static str, &'static str)>)
    ensures
        res.deep_view() == default_headers(),
{
    let res = vec![
            ("host", "www.sweetmarias.com"),
            ("user-agent", "Mozilla/5.0 (Windows NT 10.0; Win64; x64) AppleWebKit/537.36 (KHTML, like Gecko) Chrome/91.0.4472.124 Safari/537.36"),
            ("accept", "text/html,application/xhtml+xml,application/xml;q=0.9,image/webp,image/apng,*/*;q=0.8,application/signed-exchange;v=b3;q=0.9"),
            ("accept-encoding", "gzip, deflate, br"),
            ("accept-language", "en-US,en;q=0.9"),
            ("dnt", "1"),
            ("connection", "keep-alive"),
            ("upgrade-insecure-requests", "1"),
            ("sec-fetch-dest", "document"),
            ("sec-fetch-mode", "navigate"),
            ("sec-fetch-site", "none"),
            ("sec-fetch-user", "?1"),
            ("cache-control", "max-age=0"),
        ];
    assert(res.deep_view() =~= default_headers());
    res
}

pub(crate) fn detail_field_pairs() -> (res: Vec<(&'static str, &'static str)>)
    ensures
        res.deep_view() == detail_fields(),
{
    let res = vec![
            ("region", "td[data-th='Region']"),
            ("processing", "td[data-th='Processing']"),
            ("drying", "td[data-th='Drying Method']"),
            ("arrival", "td[data-th='Arrival date']"),
            ("lot_size", "td[data-th='Lot size']"),
            ("bag_size", "td[data-th='Bag size']"),
            ("packaging", "td[data-th='Packaging']"),
            ("farm_gate", "td[data-th='Farm Gate']"),
            ("cultivar_detail", "td[data-th='Cultivar Detail']"),
            ("grade", "td[data-th='Grade']"),
            ("appearance", "td[data-th='Appearance']"),
            ("roast_rec", "td[data-th='Roast Recommendations']"),
            ("coffee_type", "td[data-th='Type']"),
            ("spro_rec", "td[data-th='Recommended for Espresso']"),
            ("score", "div.score-value"),
        ];
    assert(res.deep_view() =~= detail_fields());
    res
}

fn owned_pairs(pairs: &Vec<(&'static str, &'static str)>) -> (res: Vec<(String, String)>)
    ensures
        res.deep_view() == pairs.deep_view(),
{
    let mut res: Vec<(String, String)> = Vec::new();
    let mut i: usize = 0;
    while i < pairs.len()
        invariant
            i <= pairs@.len(),
            res@.len() == i,
            res.deep_view() == pairs.deep_view().take(i as int),
        decreases pairs.len() - i,
    {
        let pair = pairs[i];
        let name = pair.0.to_owned();
        let value = pair.1.to_owned();
        assert(pairs.deep_view()[i as int] == (name@, value@));
        let ghost before = res@;
        res.push((name, value));
        assert forall|k: int| 0 <= k < res@.len() implies #[trigger] res.deep_view()[k]
            == pairs.deep_view().take(i + 1)[k] by {
            if k < i {
                assert(res@[k] == before[k]);
                assert(before.len() == i);
            }
        }
        assert(res.deep_view() =~= pairs.deep_view().take(i + 1));
        i = i + 1;
    }
    assert(pairs.deep_view().take(pairs@.len() as int) =~= pairs.deep_view());
    res
}

/// The value stored under `key` in the details of a listing (see
/// `lookup_detail`); a missing detail reads as empty text.
pub fn detail_value(details: &Vec<(String, String)>, key: &str) -> (res: String)
    ensures
        res@ == lookup_detail(details.deep_view(), key@),
{
    let mut i: usize = 0;
    assert(details.deep_view().skip(0) =~= details.deep_view());
    while i < details.len()
        invariant
            i <= details@.len(),
            lookup_detail(details.deep_view(), key@) == lookup_detail(
                details.deep_view().skip(i as int),
                key@,
            ),
        decreases details.len() - i,
    {
        assert(details.deep_view().skip(i as int)[0] == details.deep_view()[i as int]);
        if str_equal(details[i].0.as_str(), key) {
            return details[i].1.clone();
        }
        assert(details.deep_view().skip(i as int).drop_first() =~= details.deep_view().skip(i + 1));
        i = i + 1;
    }
    String::new()
}

impl Scraper {
    /// A scraper that sends the headers of `default_headers`.
    pub fn new() -> (scraper: Scraper)
        ensures
            scraper@ == default_headers(),
    {
        Scraper { headers: owned_pairs(&header_pairs()) }
    }

    /// The request headers, as (name, value) pairs.
    pub fn headers(&self) -> (headers: &Vec<(String, String)>)
        ensures
            headers.deep_view() == self@,
    {
        &self.headers
    }

    /// The product links of a directory page (see `directory_links`).
    pub fn parse_directory_html(&self, html: &str) -> (links: Vec<String>)
        ensures
            links.deep_view() == directory_links(html@),
    {
        let mut links: Vec<String> = Vec::new();
        match select_attributes(html, "a.product-item-link", "href") {
            Some(values) => {
                let mut i: usize = 0;
                while i < values.len()
                    invariant
                        i <= values@.len(),
                        links.deep_view() == present_values(values.deep_view().take(i as int)),
                    decreases values.len() - i,
                {
                    assert(values.deep_view().take(i + 1).drop_last() =~= values.deep_view().take(
                        i as int,
                    ));
                    match &values[i] {
                        Some(link) => {
                            links.push(link.clone());
                            assert(links.deep_view() =~= present_values(
                                values.deep_view().take(i + 1),
                            ));
                        },
                        None => {},
                    }
                    i = i + 1;
                }
                assert(values.deep_view().take(values@.len() as int) =~= values.deep_view());
            },
            None => {
                assert(links.deep_view() =~= Seq::<Seq<char>>::empty());
            },
        }
        links
    }

    /// The details of a listing page, one (name, text) pair per entry of
    /// `detail_fields`, in that order (see `detail_text`).
    pub fn sm_item_listing_to_details(&self, html: &str) -> (details: Vec<(String, String)>)
        ensures
            details.deep_view() == listing_details(html@),
    {
        let fields = detail_field_pairs();
        let mut details: Vec<(String, String)> = Vec::new();
        let mut i: usize = 0;
        while i < fields.len()
            invariant
                i <= fields@.len(),
                details@.len() == i,
                fields.deep_view() == detail_fields(),
                details.deep_view() == listing_details(html@).take(i as int),
            decreases fields.len() - i,
        {
            let field = fields[i];
            let text = Self::detail_of(html, field.1);
            let key = field.0.to_owned();
            assert(detail_fields()[i as int] == (key@, field.1@));
            let ghost before = details@;
            let ghost before_deep = details.deep_view();
            let ghost entry = (key@, text@);
            details.push((key, text));
            assert forall|k: int| 0 <= k < details@.len() implies #[trigger] details.deep_view()[k]
                == listing_details(html@)[k] by {
                if k < i {
                    assert(details@[k] == before[k]);
                    assert(before_deep[k] == before[k].deep_view());
                    assert(before_deep[k] == listing_details(html@).take(i as int)[k]);
                } else {
                    assert(details@[k].deep_view() == entry);
                }
            }
            assert(details.deep_view() =~= listing_details(html@).take(i + 1));
            i = i + 1;
        }
        assert(listing_details(html@).take(fields@.len() as int) =~= listing_details(html@));
        details
    }

    /// The text of one detail of a listing page (see `detail_text`).
    fn detail_of(html: &str, selector: &str) -> (text: String)
        ensures
            text@ == detail_text(html@, selector@),
    {
        let mut text = String::new();
        match select_inner_html(html, selector) {
            Some(pieces) => {
                let mut i: usize = 0;
                while i < pieces.len()
                    invariant
                        i <= pieces@.len(),
                        text@ == concat_trimmed(pieces.deep_view().take(i as int)),
                    decreases pieces.len() - i,
                {
                    assert(pieces.deep_view().take(i + 1).drop_last() =~= pieces.deep_view().take(
                        i as int,
                    ));
                    let trimmed = chars_trim(&chars_of(pieces[i].as_str()));
                    push_chars(&mut text, &trimmed);
                    i = i + 1;
                }
                assert(pieces.deep_view().take(pieces@.len() as int) =~= pieces.deep_view());
            },
            None => {},
        }
        text
    }

    /// The visible text of a listing page (see `stripped_text`).
    pub fn strip_html_tags(&self, html: &str) -> (res: String)
        ensures
            res@ == stripped_text(html@),
    {
        let h = chars_of(html);
        let script_open = chars_of("<script");
        let style_open = chars_of("<style");
        let noscript_open = chars_of("<noscript");
        let script_close = chars_of("</script>");
        let style_close = chars_of("</style>");
        let noscript_close = chars_of("</noscript>");
        let more = chars_of("You may also like ...");
        let start_trim = chars_of(" 0 --          0 -- ");
        let mut result: Vec<char> = Vec::new();
        let mut copy: Vec<char> = Vec::new();
        let mut inside = false;
        let mut skip = false;
        let mut skip_ws = false;
        let mut i: usize = 0;
        while i < h.len()
            invariant_except_break
                !strip_scan(h@, i as nat).stopped,
                result@ == strip_scan(h@, i as nat).result,
                inside == strip_scan(h@, i as nat).inside,
                skip == strip_scan(h@, i as nat).skip,
                skip_ws == strip_scan(h@, i as nat).skip_ws,
            invariant
                h@ == html@,
                script_open@ == "<script"@,
                style_open@ == "<style"@,
                noscript_open@ == "<noscript"@,
                script_close@ == "</script>"@,
                style_close@ == "</style>"@,
                noscript_close@ == "</noscript>"@,
                more@ == more_marker(),
                i <= h@.len(),
                copy@ == h@.take(i as int),
            ensures
                result@ == strip_scan(h@, h@.len()).result,
            decreases h.len() - i,
        {
            let c = h[i];
            copy.push(c);
            let ghost prev = strip_scan(h@, i as nat);
            assert(copy@ =~= h@.take(i + 1));
            if chars_end_with(&copy, &script_open) || chars_end_with(&copy, &style_open)
                || chars_end_with(&copy, &noscript_open) {
                skip = true;
            }
            if chars_end_with(&copy, &script_close) || chars_end_with(&copy, &style_close)
                || chars_end_with(&copy, &noscript_close) {
                skip = false;
            }
            if !char_is_whitespace(c) {
                skip_ws = false;
            }
            if c == '<' {
                inside = true;
            } else if c == '>' {
                inside = false;
                result.push(' ');
            } else if !inside && !skip && !skip_ws {
                result.push(c);
                if char_is_whitespace(c) {
                    skip_ws = true;
                }
            }
            i = i + 1;
            assert(strip_scan(h@, i as nat) == strip_step(h@.take(i as int), prev, c));
            if chars_end_with(&copy, &more) {
                proof {
                    lemma_scan_stays_stopped(h@, i as nat, h@.len());
                }
                break ;
            }
        }
        let joined = chars_remove(&result, '\n');
        let cut = match chars_find(&joined, &more) {
            Some(index) => {
                proof {
                    lemma_find_from_is_first(joined@, more@, 0);
                }
                chars_slice(&joined, 0, index)
            },
            None => joined,
        };
        let cut_len = cut.len();
        let started = match chars_find(&cut, &start_trim) {
            Some(index) => {
                proof {
                    lemma_find_from_is_first(cut@, start_trim@, 0);
                }
                chars_slice(&cut, index + start_trim.len(), cut_len)
            },
            None => cut,
        };
        let trimmed = chars_trim(&started);
        string_of_chars(&trimmed)
    }
}

impl Default for Scraper {
    fn default() -> (scraper: Scraper)
        ensures
            scraper@ == default_headers(),
    {
        Scraper::new()
    }
}

} // verus!
