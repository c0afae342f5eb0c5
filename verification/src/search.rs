//! Station search on the radio-browser directory: the address of the query,
//! and what becomes of the entries the directory sends back. The request
//! itself, and reading the JSON, happen in the application.

use vstd::prelude::*;
use crate::config::{
    http_scheme, https_scheme, is_stream, is_stream_url, opt_str, opt_text, strip_scheme,
    without_scheme,
};
use crate::text::{
    chars_of, contains, decimal, decimal_text, has_infix, has_prefix, join, joined,
    lemma_trimmed_idempotent, same_text, split_on, split_text, starts_with, trim, trimmed,
};

verus! {

broadcast use vstd::string::group_string_axioms;

/// The directory endpoint. It searches by name and gives back the most voted first.
/// Without a trailing slash: the query is pushed on as the next path segment.
pub const API: &'static str = "https://de1.api.radio-browser.info/json/stations/byname";

/// `hidebroken` leaves out the streams the directory has already found to be dead.
pub const QUERY: &'static str = "limit=100&order=votes&reverse=true&hidebroken=true";

/// How many tags we show next to a station before it gets noisy.
pub const MAX_TAGS: usize = 3;

// ---------------------------------------------------------------- the address of a search

/// The address `url::Url` gives for `base` once `PathSegmentsMut::pop_if_empty`
/// and then `PathSegmentsMut::push(segment)` have run on it; `None` when `base`
/// does not parse or cannot be a base.
pub uninterp spec fn segment_pushed(base: Seq<char>, segment: Seq<char>) -> Option<Seq<char>>;

/// The address `url::Url` gives for `base` once `Url::set_query(Some(query))` has
/// run on it; `None` when `base` does not parse.
pub uninterp spec fn query_set(base: Seq<char>, query: Seq<char>) -> Option<Seq<char>>;

/// Parses `base` with `url::Url::parse`, drops an empty last path segment with
/// `PathSegmentsMut::pop_if_empty` and appends `segment`, percent-encoded, with
/// `PathSegmentsMut::push`. The contract only names the result: the encoding
/// rules of the `url` crate are not restated here.
#[verifier::external_body]
fn push_segment(base: &str, segment: &str) -> (r: Option<String>)
    ensures
        opt_text(r) == segment_pushed(base@, segment@),
{
    let mut url = url::Url::parse(base).ok()?;
    url.path_segments_mut().ok()?.pop_if_empty().push(segment);
    Some(url.into())
}

/// Parses `base` with `url::Url::parse` and sets its query with `Url::set_query`.
/// The contract only names the result: the encoding rules of the `url` crate are
/// not restated here.
#[verifier::external_body]
fn set_query(base: &str, query: &str) -> (r: Option<String>)
    ensures
        opt_text(r) == query_set(base@, query@),
{
    let mut url = url::Url::parse(base).ok()?;
    url.set_query(Some(query));
    Some(url.into())
}

/// The address `base` with `segment` pushed on as its last path segment: a
/// trailing slash of `base` does not give an empty segment in between.
pub fn search_path(base: &str, segment: &str) -> (r: Option<String>)
    ensures
        opt_text(r) == segment_pushed(base@, segment@),
{
    push_segment(base, segment)
}

/// The whole address of a search: the query after `byname`, the options after it.
pub open spec fn endpoint_of(query: Seq<char>) -> Option<Seq<char>> {
    match segment_pushed(API@, query) {
        Some(path) => query_set(path, QUERY@),
        None => None,
    }
}

/// The address of the search. The text the user typed travels percent-encoded,
/// as one path segment.
pub fn endpoint(query: &str) -> (r: Option<String>)
    ensures
        opt_text(r) == endpoint_of(query@),
{
    match search_path(API, query) {
        Some(path) => set_query(path.as_str(), QUERY),
        None => None,
    }
}

// ---------------------------------------------------------------- the results

/// One station the directory sent back, along with its tick box.
#[derive(Debug, Clone)]
pub struct Found {
    pub name: String,
    pub url: String,
    /// Country, codec, bitrate and tags, joined for the second line of the row.
    pub meta: String,
    pub checked: bool,
}

/// A result as the specifications see it: name, address, details and tick.
pub type FoundView = (Seq<char>, Seq<char>, Seq<char>, bool);

impl View for Found {
    type V = FoundView;

    open spec fn view(&self) -> FoundView {
        (self.name@, self.url@, self.meta@, self.checked)
    }
}

/// What we read out of the directory's JSON. Everything is optional: the fields
/// do come back as `null` on stations nobody has filled in properly.
#[derive(Debug, Clone)]
pub struct Raw {
    pub name: Option<String>,
    pub url: Option<String>,
    /// The address after the redirects — the one that actually plays.
    pub url_resolved: Option<String>,
    pub codec: Option<String>,
    pub bitrate: Option<u32>,
    pub countrycode: Option<String>,
    /// Comma separated, as the directory keeps them.
    pub tags: Option<String>,
}

/// Where the search has got to.
pub enum State {
    Searching,
    Ready(Vec<Found>),
    Failed(String),
}

/// The search window: the text that was asked for and its result.
pub struct Search {
    pub query: String,
    pub state: State,
}

impl Search {
    /// A search for `query` that has just been sent off: the window opens
    /// showing "Searching…".
    pub fn start(query: &str) -> (s: Search)
        ensures
            s.query@ == trimmed(query@),
            s.state is Searching,
    {
        Search { query: trim(query).to_owned(), state: State::Searching }
    }

    /// Moves the answer of the worker, if it has come, into the window.
    pub fn poll(&mut self, outcome: Option<Result<Vec<Found>, String>>)
        ensures
            final(self).query == old(self).query,
            match outcome {
                None => final(self).state == old(self).state,
                Some(Ok(found)) => final(self).state == State::Ready(found),
                Some(Err(e)) => final(self).state == State::Failed(e),
            },
    {
        match outcome {
            None => {},
            Some(Ok(found)) => self.state = State::Ready(found),
            Some(Err(e)) => self.state = State::Failed(e),
        }
    }
}

/// Results as the specifications see them.
pub open spec fn found_views(v: Seq<Found>) -> Seq<FoundView> {
    v.map_values(|f: Found| f@)
}

/// The results that are ticked, in the order of the window.
pub open spec fn ticked(fs: Seq<FoundView>) -> Seq<FoundView>
    decreases fs.len(),
{
    if fs.len() == 0 {
        seq![]
    } else if fs.last().3 {
        ticked(fs.drop_last()).push(fs.last())
    } else {
        ticked(fs.drop_last())
    }
}

/// Picked stations as the specifications see them: (address, name).
pub open spec fn pick_views(v: Seq<(String, String)>) -> Seq<(Seq<char>, Seq<char>)> {
    v.map_values(|p: (String, String)| (p.0@, p.1@))
}

/// How many results are ticked.
pub fn checked_count(found: &Vec<Found>) -> (r: usize)
    ensures
        r == ticked(found_views(found@)).len(),
{
    let ghost fs = found_views(found@);
    let mut n: usize = 0;
    let mut i: usize = 0;
    while i < found.len()
        invariant
            i <= found@.len(),
            fs == found_views(found@),
            n == ticked(fs.take(i as int)).len(),
            n <= i,
        decreases found@.len() - i,
    {
        proof {
            assert(fs.take(i + 1).drop_last() =~= fs.take(i as int));
            assert(fs.take(i + 1).last() == found@[i as int]@);
        }
        if found[i].checked {
            n = n + 1;
        }
        i = i + 1;
    }
    proof {
        assert(fs.take(found@.len() as int) =~= fs);
    }
    n
}

/// Ticks every result, or none.
pub fn tick_all(found: &mut Vec<Found>, on: bool)
    ensures
        final(found)@.len() == old(found)@.len(),
        forall|i: int|
            0 <= i < final(found)@.len() ==> (#[trigger] final(found)@[i])@ == (
                old(found)@[i]@.0,
                old(found)@[i]@.1,
                old(found)@[i]@.2,
                on,
            ),
{
    let ghost before = found@;
    let mut i: usize = 0;
    while i < found.len()
        invariant
            i <= found@.len(),
            found@.len() == before.len(),
            forall|k: int|
                0 <= k < i ==> (#[trigger] found@[k])@ == (
                    before[k]@.0,
                    before[k]@.1,
                    before[k]@.2,
                    on,
                ),
            forall|k: int| i <= k < found@.len() ==> #[trigger] found@[k] == before[k],
        decreases found@.len() - i,
    {
        let f = Found {
            name: found[i].name.clone(),
            url: found[i].url.clone(),
            meta: found[i].meta.clone(),
            checked: on,
        };
        found.set(i, f);
        i = i + 1;
    }
}

/// Flips the tick of one result: anywhere on its row toggles it.
pub fn toggle(found: &mut Vec<Found>, i: usize)
    requires
        i < old(found)@.len(),
    ensures
        final(found)@.len() == old(found)@.len(),
        final(found)@[i as int]@ == (
            old(found)@[i as int]@.0,
            old(found)@[i as int]@.1,
            old(found)@[i as int]@.2,
            !old(found)@[i as int]@.3,
        ),
        forall|k: int|
            0 <= k < final(found)@.len() && k != i ==> #[trigger] final(found)@[k] == old(
                found,
            )@[k],
{
    let f = Found {
        name: found[i].name.clone(),
        url: found[i].url.clone(),
        meta: found[i].meta.clone(),
        checked: !found[i].checked,
    };
    found.set(i, f);
}

/// The ticked results as (address, name), in order: what the Add button hands
/// to the list.
pub fn picked(found: &Vec<Found>) -> (r: Vec<(String, String)>)
    ensures
        pick_views(r@) == ticked(found_views(found@)).map_values(
            |f: FoundView| (f.1, f.0),
        ),
{
    let ghost fs = found_views(found@);
    let mut r: Vec<(String, String)> = Vec::new();
    let mut i: usize = 0;
    while i < found.len()
        invariant
            i <= found@.len(),
            fs == found_views(found@),
            pick_views(r@) == ticked(fs.take(i as int)).map_values(|f: FoundView| (f.1, f.0)),
        decreases found@.len() - i,
    {
        proof {
            assert(fs.take(i + 1).drop_last() =~= fs.take(i as int));
            assert(fs.take(i + 1).last() == found@[i as int]@);
        }
        if found[i].checked {
            let ghost before = r@;
            r.push((found[i].url.clone(), found[i].name.clone()));
            proof {
                assert(pick_views(r@) =~= pick_views(before).push(
                    (found@[i as int]@.1, found@[i as int]@.0),
                ));
                assert(ticked(fs.take(i + 1)) == ticked(fs.take(i as int)).push(fs[i as int]));
                assert(ticked(fs.take(i + 1)).map_values(|f: FoundView| (f.1, f.0)) =~= ticked(
                    fs.take(i as int),
                ).map_values(|f: FoundView| (f.1, f.0)).push((fs[i as int].1, fs[i as int].0)));
            }
        }
        i = i + 1;
    }
    proof {
        assert(fs.take(found@.len() as int) =~= fs);
    }
    r
}

// ---------------------------------------------------------------- the details line

/// `"UNKNOWN"`, which the directory puts where it does not know the codec.
pub open spec fn unknown_codec() -> Seq<char> {
    seq!['U', 'N', 'K', 'N', 'O', 'W', 'N']
}

/// `" kbps"`.
pub open spec fn kbps_suffix() -> Seq<char> {
    seq![' ', 'k', 'b', 'p', 's']
}

/// `"  •  "`, between the parts of a details line.
pub open spec fn bullet_sep() -> Seq<char> {
    seq![' ', ' ', '•', ' ', ' ']
}

/// `", "`, between two tags.
pub open spec fn comma_sep() -> Seq<char> {
    seq![',', ' ']
}

/// A bitrate as it is shown: `128 kbps`.
pub open spec fn kbps(b: u32) -> Seq<char> {
    decimal(b as nat) + kbps_suffix()
}

/// The codec worth showing: trimmed, and not blank nor `UNKNOWN`.
pub open spec fn shown_codec(codec: Option<Seq<char>>) -> Option<Seq<char>> {
    match codec {
        Some(c) => if trimmed(c).len() > 0 && trimmed(c) != unknown_codec() {
            Some(trimmed(c))
        } else {
            None
        },
        None => None,
    }
}

/// The codec and bitrate part of a details line, if there is anything to say.
pub open spec fn codec_part(codec: Option<Seq<char>>, bitrate: Option<u32>) -> Option<Seq<char>> {
    let b = if bitrate is Some && bitrate->0 > 0 {
        bitrate
    } else {
        None
    };
    match (shown_codec(codec), b) {
        (Some(c), Some(b)) => Some(c + seq![' '] + kbps(b)),
        (Some(c), None) => Some(c),
        (None, Some(b)) => Some(kbps(b)),
        (None, None) => None,
    }
}

/// The pieces that are not blank, trimmed.
pub open spec fn nonblank(pieces: Seq<Seq<char>>) -> Seq<Seq<char>>
    decreases pieces.len(),
{
    if pieces.len() == 0 {
        seq![]
    } else if trimmed(pieces.last()).len() > 0 {
        nonblank(pieces.drop_last()).push(trimmed(pieces.last()))
    } else {
        nonblank(pieces.drop_last())
    }
}

/// The first `n` items, or all of them when there are fewer.
pub open spec fn at_most<A>(s: Seq<A>, n: nat) -> Seq<A> {
    if s.len() > n {
        s.take(n as int)
    } else {
        s
    }
}

/// The tags worth showing: the comma separated ones that are not blank, the first three.
pub open spec fn shown_tags(tags: Option<Seq<char>>) -> Seq<Seq<char>> {
    match tags {
        Some(t) => at_most(nonblank(split_on(t, ',')), MAX_TAGS as nat),
        None => seq![],
    }
}

/// The parts of a details line: the country as given, codec and bitrate, and the tags.
pub open spec fn meta_parts(
    country: Option<Seq<char>>,
    codec: Option<Seq<char>>,
    bitrate: Option<u32>,
    tags: Option<Seq<char>>,
) -> Seq<Seq<char>> {
    let a = match country {
        Some(c) => seq![c],
        None => seq![],
    };
    let b = match codec_part(codec, bitrate) {
        Some(p) => a.push(p),
        None => a,
    };
    if shown_tags(tags).len() > 0 {
        b.push(joined(shown_tags(tags), comma_sep()))
    } else {
        b
    }
}

/// The country code as the row shows it: trimmed and in capitals, when it is not blank.
pub open spec fn shown_country(country: Option<Seq<char>>) -> Option<Seq<char>> {
    match country {
        Some(c) => if trimmed(c).len() > 0 {
            Some(uppercase(trimmed(c)))
        } else {
            None
        },
        None => None,
    }
}

/// What `str::to_uppercase` gives for a text, by the Unicode case mapping.
pub uninterp spec fn uppercase(s: Seq<char>) -> Seq<char>;

/// `str::to_uppercase`: the text in capitals, by the full Unicode case mapping,
/// which the contract names rather than restates.
#[verifier::external_body]
fn to_uppercase(s: &str) -> (r: String)
    ensures
        r@ == uppercase(s@),
{
    s.to_uppercase()
}

fn unknown_text() -> (r: &'static str)
    ensures
        r@ == unknown_codec(),
{
    proof {
        reveal_strlit("UNKNOWN");
    }
    let r = "UNKNOWN";
    assert(r@ =~= unknown_codec());
    r
}

fn kbps_text() -> (r: &'static str)
    ensures
        r@ == kbps_suffix(),
{
    proof {
        reveal_strlit(" kbps");
    }
    let r = " kbps";
    assert(r@ =~= kbps_suffix());
    r
}

fn space_text() -> (r: &'static str)
    ensures
        r@ == seq![' '],
{
    proof {
        reveal_strlit(" ");
    }
    let r = " ";
    assert(r@ =~= seq![' ']);
    r
}

/// `"  •  "` as a literal.
pub fn bullet_text() -> (r: &'static str)
    ensures
        r@ == bullet_sep(),
{
    proof {
        reveal_strlit("  •  ");
    }
    let r = "  •  ";
    assert(r@ =~= bullet_sep());
    r
}

pub fn comma_text() -> (r: &'static str)
    ensures
        r@ == comma_sep(),
{
    proof {
        reveal_strlit(", ");
    }
    let r = ", ";
    assert(r@ =~= comma_sep());
    r
}

/// A bitrate as it is shown: `128 kbps`.
pub fn kbps_text_of(b: u32) -> (r: String)
    ensures
        r@ == kbps(b),
{
    let mut r = decimal_text(b as u64);
    r.append(kbps_text());
    r
}

/// The codec and bitrate part of a details line, if there is anything to say.
fn codec_text(codec: Option<&str>, bitrate: Option<u32>) -> (r: Option<String>)
    ensures
        opt_text(r) == codec_part(opt_str(codec), bitrate),
{
    let codec = match codec {
        Some(c) => {
            let t = trim(c);
            if !t.is_empty() && !same_text(t, unknown_text()) {
                Some(t)
            } else {
                None
            }
        },
        None => None,
    };
    let bitrate = match bitrate {
        Some(b) => if b > 0 {
            Some(b)
        } else {
            None
        },
        None => None,
    };
    match (codec, bitrate) {
        (Some(c), Some(b)) => {
            let mut r = c.to_owned();
            r.append(space_text());
            let k = kbps_text_of(b);
            r.append(k.as_str());
            Some(r)
        },
        (Some(c), None) => Some(c.to_owned()),
        (None, Some(b)) => Some(kbps_text_of(b)),
        (None, None) => None,
    }
}

/// The tags worth showing, joined with commas.
fn tags_text(tags: Option<&str>) -> (r: String)
    ensures
        r@ == joined(shown_tags(opt_str(tags)), comma_sep()),
{
    let mut kept: Vec<String> = Vec::new();
    match tags {
        Some(t) => {
            let pieces = split_text(t, ',');
            let ghost ps = pieces@.map_values(|p: &str| p@);
            let mut i: usize = 0;
            while i < pieces.len()
                invariant
                    ps == pieces@.map_values(|p: &str| p@),
                    ps == split_on(t@, ','),
                    i <= pieces.len(),
                    kept@.map_values(|p: String| p@) == at_most(
                        nonblank(ps.take(i as int)),
                        MAX_TAGS as nat,
                    ),
                decreases pieces.len() - i,
            {
                proof {
                    assert(ps.take(i + 1).drop_last() =~= ps.take(i as int));
                }
                let piece = trim(pieces[i]);
                if !piece.is_empty() && kept.len() < MAX_TAGS {
                    let ghost before = kept@.map_values(|p: String| p@);
                    kept.push(piece.to_owned());
                    proof {
                        assert(kept@.map_values(|p: String| p@) =~= before.push(piece@));
                    }
                }
                proof {
                    let n = nonblank(ps.take(i as int));
                    if piece@.len() > 0 {
                        if n.len() >= MAX_TAGS {
                            assert(n.push(piece@).take(MAX_TAGS as int) =~= n.take(
                                MAX_TAGS as int,
                            ));
                        }
                    }
                }
                i = i + 1;
            }
            proof {
                assert(ps.take(pieces.len() as int) =~= ps);
            }
        },
        None => {
            proof {
                assert(kept@.map_values(|p: String| p@) =~= Seq::<Seq<char>>::empty());
            }
        },
    }
    join(&kept, comma_text())
}

/// The details line from a country text that is already as it should be shown.
pub fn compose_meta(
    country: Option<&str>,
    codec: Option<&str>,
    bitrate: Option<u32>,
    tags: Option<&str>,
) -> (r: String)
    ensures
        r@ == joined(meta_parts(opt_str(country), opt_str(codec), bitrate, opt_str(tags)), bullet_sep()),
{
    let mut parts: Vec<String> = Vec::new();
    if let Some(c) = country {
        parts.push(c.to_owned());
    }
    let ghost a = parts@.map_values(|p: String| p@);
    if let Some(p) = codec_text(codec, bitrate) {
        parts.push(p);
    }
    let ghost b = parts@.map_values(|p: String| p@);
    proof {
        assert(a =~= match opt_str(country) {
            Some(c) => seq![c],
            None => Seq::<Seq<char>>::empty(),
        });
        assert(b =~= match codec_part(opt_str(codec), bitrate) {
            Some(p) => a.push(p),
            None => a,
        });
    }
    let t = tags_text(tags);
    if !t.as_str().is_empty() {
        proof {
            if shown_tags(opt_str(tags)).len() == 0 {
                assert(joined(shown_tags(opt_str(tags)), comma_sep()).len() == 0);
            }
        }
        parts.push(t);
        proof {
            assert(parts@.map_values(|p: String| p@) =~= b.push(t@));
        }
        assert(parts@.map_values(|p: String| p@) == meta_parts(
            opt_str(country),
            opt_str(codec),
            bitrate,
            opt_str(tags),
        ));
    } else {
        proof {
            lemma_joined_empty(shown_tags(opt_str(tags)), comma_sep());
            lemma_shown_tags_nonblank(opt_str(tags));
            if shown_tags(opt_str(tags)).len() == 1 {
                assert(shown_tags(opt_str(tags))[0].len() > 0);
            }
        }
        assert(parts@.map_values(|p: String| p@) == meta_parts(
            opt_str(country),
            opt_str(codec),
            bitrate,
            opt_str(tags),
        ));
    }
    join(&parts, bullet_text())
}

/// Every piece `nonblank` keeps has something in it.
proof fn lemma_nonblank_nonempty(pieces: Seq<Seq<char>>)
    ensures
        forall|k: int| 0 <= k < nonblank(pieces).len() ==> (#[trigger] nonblank(pieces)[k]).len() > 0,
    decreases pieces.len(),
{
    if pieces.len() > 0 {
        let r = nonblank(pieces.drop_last());
        lemma_nonblank_nonempty(pieces.drop_last());
        if trimmed(pieces.last()).len() > 0 {
            assert forall|k: int| 0 <= k < nonblank(pieces).len() implies (
            #[trigger] nonblank(pieces)[k]).len() > 0 by {
                if k < r.len() {
                    assert(nonblank(pieces)[k] == r[k]);
                }
            }
        }
    }
}

/// Every tag shown has something in it.
proof fn lemma_shown_tags_nonblank(tags: Option<Seq<char>>)
    ensures
        forall|k: int| 0 <= k < shown_tags(tags).len() ==> (#[trigger] shown_tags(tags)[k]).len() > 0,
{
    if let Some(t) = tags {
        let n = nonblank(split_on(t, ','));
        lemma_nonblank_nonempty(split_on(t, ','));
        assert forall|k: int| 0 <= k < shown_tags(tags).len() implies (#[trigger] shown_tags(
            tags,
        )[k]).len() > 0 by {
            assert(shown_tags(tags)[k] == n[k]);
        }
    }
}

/// Joining parts of which one is not empty gives a text that is not empty.
proof fn lemma_joined_empty(parts: Seq<Seq<char>>, sep: Seq<char>)
    requires
        joined(parts, sep).len() == 0,
        sep.len() > 0,
    ensures
        parts.len() == 0 || (parts.len() == 1 && parts[0].len() == 0),
{
    if parts.len() > 1 {
        assert((joined(parts.drop_last(), sep) + sep + parts.last()).len() >= sep.len());
    }
}

/// The second line of a result: country, codec, bitrate and a few tags.
pub fn meta_line(
    country: Option<&str>,
    codec: Option<&str>,
    bitrate: Option<u32>,
    tags: Option<&str>,
) -> (r: String)
    ensures
        r@ == joined(
            meta_parts(shown_country(opt_str(country)), opt_str(codec), bitrate, opt_str(tags)),
            bullet_sep(),
        ),
{
    let shown = match country {
        Some(c) => {
            let t = trim(c);
            if t.is_empty() {
                None
            } else {
                Some(to_uppercase(t))
            }
        },
        None => None,
    };
    assert(opt_text(shown) == shown_country(opt_str(country)));
    let r = match &shown {
        Some(s) => compose_meta(Some(s.as_str()), codec, bitrate, tags),
        None => compose_meta(None, codec, bitrate, tags),
    };
    r
}

// ---------------------------------------------------------------- from entries to results

/// A trimmed address, if it is one the player can open.
pub open spec fn playable(u: Option<Seq<char>>) -> Option<Seq<char>> {
    match u {
        Some(x) => if is_stream(trimmed(x)) {
            Some(trimmed(x))
        } else {
            None
        },
        None => None,
    }
}

/// The address of an entry: the resolved one when it plays, otherwise the listed one.
pub open spec fn chosen_url(raw: Raw) -> Option<Seq<char>> {
    match playable(opt_text(raw.url_resolved)) {
        Some(u) => Some(u),
        None => playable(opt_text(raw.url)),
    }
}

/// The name of a result: the trimmed name, or the address without its scheme
/// when the name is missing or blank.
pub open spec fn found_name(name: Option<Seq<char>>, url: Seq<char>) -> Seq<char> {
    let n = match name {
        Some(x) => trimmed(x),
        None => seq![],
    };
    if n.len() == 0 {
        without_scheme(url)
    } else {
        n
    }
}

/// The details line of an entry.
pub open spec fn raw_meta(raw: Raw) -> Seq<char> {
    joined(
        meta_parts(
            shown_country(opt_text(raw.countrycode)),
            opt_text(raw.codec),
            raw.bitrate,
            opt_text(raw.tags),
        ),
        bullet_sep(),
    )
}

/// The result an entry becomes, unticked, or none when it has no playable address.
pub open spec fn converted(raw: Raw) -> Option<FoundView> {
    match chosen_url(raw) {
        Some(u) => Some((found_name(opt_text(raw.name), u), u, raw_meta(raw), false)),
        None => None,
    }
}

/// Whether some result already has the address `u`.
pub open spec fn lists_url(fs: Seq<FoundView>, u: Seq<char>) -> bool {
    exists|i: int| 0 <= i < fs.len() && (#[trigger] fs[i]).1 == u
}

/// The results of a list of entries: the playable ones, the first of each address.
pub open spec fn collected(raws: Seq<Raw>) -> Seq<FoundView>
    decreases raws.len(),
{
    if raws.len() == 0 {
        seq![]
    } else {
        let prev = collected(raws.drop_last());
        match converted(raws.last()) {
            Some(f) => if lists_url(prev, f.1) {
                prev
            } else {
                prev.push(f)
            },
            None => prev,
        }
    }
}

/// A trimmed address, if it is one the player can open.
fn playable_text(u: &Option<String>) -> (r: Option<String>)
    ensures
        opt_text(r) == playable(opt_text(*u)),
{
    match u {
        Some(x) => {
            let t = trim(x.as_str());
            proof {
                lemma_trimmed_idempotent(x@);
            }
            if is_stream_url(t) {
                Some(t.to_owned())
            } else {
                None
            }
        },
        None => None,
    }
}

/// The result an entry becomes, if it has an address the player can open.
pub fn convert(raw: Raw) -> (r: Option<Found>)
    ensures
        match r {
            Some(f) => converted(raw) == Some(f@),
            None => converted(raw) is None,
        },
{
    let url = match playable_text(&raw.url_resolved) {
        Some(u) => u,
        None => match playable_text(&raw.url) {
            Some(u) => u,
            None => return None,
        },
    };
    let name = match &raw.name {
        Some(n) => trim(n.as_str()).to_owned(),
        None => String::new(),
    };
    let name = if name.as_str().is_empty() {
        strip_scheme(url.as_str()).to_owned()
    } else {
        name
    };
    let meta = meta_line(
        opt_as_str(&raw.countrycode),
        opt_as_str(&raw.codec),
        raw.bitrate,
        opt_as_str(&raw.tags),
    );
    Some(Found { name, meta, url, checked: false })
}

/// A borrowed view of an optional text.
fn opt_as_str(o: &Option<String>) -> (r: Option<&str>)
    ensures
        opt_str(r) == opt_text(*o),
{
    match o {
        Some(s) => Some(s.as_str()),
        None => None,
    }
}

/// Keeps the entries that can actually be played and drops the duplicates —
/// the same stream is often listed several times under different names.
pub fn collect(raw: Vec<Raw>) -> (r: Vec<Found>)
    ensures
        r@.map_values(|f: Found| f@) == collected(raw@),
{
    let ghost raws = raw@;
    let mut found: Vec<Found> = Vec::new();
    let mut i: usize = 0;
    let n = raw.len();
    let mut raw = raw;
    while i < n
        invariant
            n == raws.len(),
            raw@.len() == n - i,
            raw@ == raws.skip(i as int),
            i <= n,
            found@.map_values(|f: Found| f@) == collected(raws.take(i as int)),
        decreases n - i,
    {
        proof {
            assert(raws.take(i + 1).drop_last() =~= raws.take(i as int));
            assert(raws.take(i + 1).last() == raws[i as int]);
            assert(raw@[0] == raws[i as int]);
        }
        let entry = raw.remove(0);
        proof {
            assert(raw@ =~= raws.skip(i + 1));
        }
        let ghost prev = found@.map_values(|f: Found| f@);
        match convert(entry) {
            Some(station) => {
                let mut k: usize = 0;
                let mut seen = false;
                while k < found.len()
                    invariant
                        prev == found@.map_values(|f: Found| f@),
                        k <= found.len(),
                        seen ==> lists_url(prev, station@.1),
                        !seen ==> forall|j: int| 0 <= j < k ==> (#[trigger] prev[j]).1 != station@.1,
                    decreases found.len() - k,
                {
                    if same_text(found[k].url.as_str(), station.url.as_str()) {
                        assert(prev[k as int].1 == station@.1);
                        seen = true;
                    }
                    k = k + 1;
                }
                if !seen {
                    found.push(station);
                    proof {
                        assert(found@.map_values(|f: Found| f@) =~= prev.push(station@));
                    }
                }
            },
            None => {},
        }
        i = i + 1;
    }
    proof {
        assert(raws.take(n as int) =~= raws);
    }
    found
}

/// `"://"`.
pub open spec fn scheme_sep() -> Seq<char> {
    seq![':', '/', '/']
}

/// `"www."`.
pub open spec fn www_prefix() -> Seq<char> {
    seq!['w', 'w', 'w', '.']
}

/// Whether a text is a stream address, or something to search for.
pub open spec fn is_address(t: Seq<char>) -> bool {
    contains(trimmed(t), scheme_sep()) || starts_with(trimmed(t), www_prefix())
}

fn scheme_sep_text() -> (r: &'static str)
    ensures
        r@ == scheme_sep(),
{
    proof {
        reveal_strlit("://");
    }
    let r = "://";
    assert(r@ =~= scheme_sep());
    r
}

fn www_text() -> (r: &'static str)
    ensures
        r@ == www_prefix(),
{
    proof {
        reveal_strlit("www.");
    }
    let r = "www.";
    assert(r@ =~= www_prefix());
    r
}

/// Whether the text is a stream address, or something to search for.
pub fn looks_like_address(text: &str) -> (r: bool)
    ensures
        r == is_address(text@),
{
    let t = chars_of(trim(text));
    has_infix(&t, &chars_of(scheme_sep_text())) || has_prefix(&t, &chars_of(www_text()))
}

// ---------------------------------------------------------------- laws

/// A codec worth showing is always in the details line, first, and a positive
/// bitrate always ends it; the part is missing only when there is neither. In
/// particular a codec without a bitrate is shown on its own, trimmed.
pub proof fn law_codec_is_always_shown(codec: Option<Seq<char>>, bitrate: Option<u32>)
    ensures
        shown_codec(codec) matches Some(x) ==> (codec_part(codec, bitrate) matches Some(p)
            && starts_with(p, x)),
        bitrate is Some && bitrate->0 > 0 ==> (codec_part(codec, bitrate) matches Some(p)
            && p.len() >= kbps(bitrate->0).len() && p.skip(p.len() - kbps(bitrate->0).len())
            == kbps(bitrate->0)),
        codec_part(codec, bitrate) is None <==> (shown_codec(codec) is None && !(bitrate is Some
            && bitrate->0 > 0)),
        codec is Some && trimmed(codec->0).len() > 0 && trimmed(codec->0) != unknown_codec() && (
        bitrate is None || bitrate == Some(0u32)) ==> codec_part(codec, bitrate) == Some(
            trimmed(codec->0),
        ),
{
    if let Some(x) = shown_codec(codec) {
        if let Some(p) = codec_part(codec, bitrate) {
            assert(p.take(x.len() as int) =~= x);
        }
    }
    if let Some(k) = bitrate {
        if k > 0 {
            if let Some(p) = codec_part(codec, bitrate) {
                assert(p.skip(p.len() - kbps(k).len()) =~= kbps(k));
            }
        }
    }
}

/// Every result has an address the player can open, none twice.
pub proof fn law_results_playable_and_distinct(raws: Seq<Raw>)
    ensures
        forall|k: int|
            0 <= k < collected(raws).len() ==> is_stream(#[trigger] collected(raws)[k].1),
        forall|i: int, j: int|
            0 <= i < collected(raws).len() && 0 <= j < collected(raws).len() && i != j ==> (
            #[trigger] collected(raws)[i]).1 != (#[trigger] collected(raws)[j]).1,
    decreases raws.len(),
{
    if raws.len() > 0 {
        law_results_playable_and_distinct(raws.drop_last());
        let prev = collected(raws.drop_last());
        let c = collected(raws);
        if let Some(f) = converted(raws.last()) {
            if !lists_url(prev, f.1) {
                assert forall|k: int| 0 <= k < c.len() implies is_stream(#[trigger] c[k].1) by {
                    if k < prev.len() {
                        assert(c[k] == prev[k]);
                    }
                }
                assert forall|i: int, j: int|
                    0 <= i < c.len() && 0 <= j < c.len() && i != j implies (#[trigger] c[i]).1 != (
                    #[trigger] c[j]).1 by {
                    if i < prev.len() && j < prev.len() {
                        assert(c[i] == prev[i] && c[j] == prev[j]);
                    } else if i < prev.len() {
                        assert(c[i] == prev[i]);
                    } else {
                        assert(c[j] == prev[j]);
                    }
                }
            }
        }
    }
}

} // verus!
