use vstd::prelude::*;

use crate::query::{matches_chars, parse, parse_text, query_matches, views, ParseError, Query, Symbol};
use crate::text::{chars_of, has_prefix, lemma_filter_push, starts_with};

verus! {

/// The view of an optional string.
pub open spec fn opt_view(s: Option<String>) -> Option<Seq<char>> {
    match s {
        Some(t) => Some(t@),
        None => None,
    }
}

/// The view of an optional query.
pub open spec fn opt_query(s: Option<Symbol>) -> Option<Query> {
    match s {
        Some(t) => Some(t@),
        None => None,
    }
}

/// The query that a search text asks for: none where the text is absent or
/// empty, else the parsed text.
pub open spec fn search_query(search: Option<Seq<char>>) -> Result<Option<Query>, ParseError> {
    match search {
        None => Ok(None),
        Some(s) => if s.len() == 0 {
            Ok(None)
        } else {
            match parse_text(s) {
                Ok(q) => Ok(Some(q)),
                Err(e) => Err(e),
            }
        },
    }
}

/// Whether a search keeps `icon`: it satisfies the query, if there is one,
/// and starts with `prefix:`, if there is a prefix.
pub open spec fn selects(q: Option<Query>, prefix: Option<Seq<char>>, icon: Seq<char>) -> bool {
    &&& match q {
        Some(q) => query_matches(q, icon),
        None => true,
    }
    &&& match prefix {
        Some(p) => starts_with(icon, p.push(':')),
        None => true,
    }
}

pub open spec fn selector(q: Option<Query>, prefix: Option<Seq<char>>) -> spec_fn(Seq<char>) -> bool {
    |icon: Seq<char>| selects(q, prefix, icon)
}

/// The icons of `icons` that a search keeps, in their order; or why its
/// text does not parse.
pub fn query(icons: &Vec<String>, search: &Option<String>, prefix: &Option<String>) -> (r: Result<
    Vec<String>,
    ParseError,
>)
    ensures
        match search_query(opt_view(*search)) {
            Err(e) => r == Err::<Vec<String>, ParseError>(e),
            Ok(q) => r matches Ok(found) && views(found@) == views(icons@).filter(
                selector(q, opt_view(*prefix)),
            ),
        },
{
    let parsed: Option<Symbol> = match search {
        None => None,
        Some(s) => {
            if s.as_str().unicode_len() == 0 {
                None
            } else {
                match parse(s.as_str()) {
                    Err(e) => {
                        return Err(e);
                    },
                    Ok(p) => Some(p),
                }
            }
        },
    };
    let ghost q = opt_query(parsed);
    assert(search_query(opt_view(*search)) == Ok::<Option<Query>, ParseError>(q));
    let pattern: Option<Vec<char>> = match prefix {
        None => None,
        Some(p) => {
            let mut v = chars_of(p.as_str());
            v.push(':');
            Some(v)
        },
    };
    let ghost f = selector(q, opt_view(*prefix));
    let mut found: Vec<String> = Vec::new();
    let mut i: usize = 0;
    while i < icons.len()
        invariant
            i <= icons.len(),
            f == selector(q, opt_view(*prefix)),
            q == opt_query(parsed),
            match pattern {
                Some(v) => prefix matches Some(p) && v@ == p@.push(':'),
                None => prefix is None,
            },
            views(found@) == views(icons@).subrange(0, i as int).filter(f),
        decreases icons.len() - i,
    {
        let text = chars_of(icons[i].as_str());
        let query_ok = match &parsed {
            None => true,
            Some(p) => matches_chars(&text, p),
        };
        let prefix_ok = match &pattern {
            None => true,
            Some(v) => has_prefix(&text, v),
        };
        proof {
            let vs = views(icons@);
            assert(vs.subrange(0, i + 1) =~= vs.subrange(0, i as int).push(icons@[i as int]@));
            lemma_filter_push(vs.subrange(0, i as int), icons@[i as int]@, f);
        }
        let ghost before = found@;
        if query_ok && prefix_ok {
            found.push(icons[i].clone());
            assert(views(found@) =~= views(before).push(icons@[i as int]@));
        }
        i = i + 1;
    }
    assert(views(icons@).subrange(0, i as int) =~= views(icons@));
    Ok(found)
}

/// Splits a search text at its first `:` into a collection prefix and a
/// query; with no `:`, the whole text is the query.
pub fn parse_search_string(search_string: &str) -> (r: (Option<String>, Option<String>))
    ensures
        match r.0 {
            None => !search_string@.contains(':') && (r.1 matches Some(q) && q@ == search_string@),
            Some(p) => !p@.contains(':') && (r.1 matches Some(q) && search_string@ == p@.push(':')
                + q@),
        },
{
    let cs = chars_of(search_string);
    let mut k: usize = 0;
    while k < cs.len()
        invariant
            cs@ == search_string@,
            k <= cs.len(),
            forall|i: int| 0 <= i < k ==> cs@[i] != ':',
        decreases cs.len() - k,
    {
        if cs[k] == ':' {
            let p = String::from_str(search_string.substring_char(0, k));
            let q = String::from_str(search_string.substring_char(k + 1, cs.len()));
            assert(!p@.contains(':'));
            assert(search_string@ =~= p@.push(':') + q@);
            return (Some(p), Some(q));
        }
        k = k + 1;
    }
    (None, Some(String::from_str(search_string)))
}

/// The options a session starts from.
#[derive(Debug)]
pub struct Cli {
    /// Select an icon collection by prefix. Can be used without query.
    pub prefix: Option<String>,
    /// Generate the icon cache.
    pub generate_icons_cache: bool,
    /// Fetch the icon collections.
    pub fetch_collections: bool,
    /// Render previews in addition to displaying the icon identifiers.
    pub preview: bool,
    /// Open a browser to preview and select icons.
    pub browse: bool,
    /// Disables the browser for the current session if default browse config is set.
    pub no_browse: bool,
    /// Print more verbose debug messages.
    pub verbose: bool,
    /// After selecting an icon in the browser, print the SVG source of the icon.
    pub output_svg: bool,
    /// Read and print the config.
    pub reset_config: bool,
    /// The query string to search for.
    pub query: Option<String>,
}

/// An optional text, with absence read as the empty text.
pub open spec fn or_empty(s: Option<String>) -> Seq<char> {
    match s {
        Some(t) => t@,
        None => Seq::empty(),
    }
}

/// The search text for a prefix and a query: `prefix:query` where a
/// prefix is given, else the query alone.
pub open spec fn initial_search(prefix: Option<String>, query: Option<String>) -> Seq<char> {
    if or_empty(prefix).len() == 0 {
        or_empty(query)
    } else {
        or_empty(prefix).push(':') + or_empty(query)
    }
}

/// The search text that the options stand for.
pub fn parse_original_search_string(args: &Cli) -> (r: String)
    ensures
        r@ == initial_search(args.prefix, args.query),
{
    let mut r = match &args.prefix {
        Some(p) => String::from_str(p.as_str()),
        None => String::new(),
    };
    if r.as_str().unicode_len() > 0 {
        let sep = ":";
        proof {
            reveal_strlit(":");
        }
        r.append(sep);
    }
    match &args.query {
        Some(q) => r.append(q.as_str()),
        None => {},
    }
    proof {
        if or_empty(args.prefix).len() == 0 {
            assert(r@ =~= or_empty(args.query));
        } else {
            assert(r@ =~= or_empty(args.prefix).push(':') + or_empty(args.query));
        }
    }
    r
}

/// A search text split at its first `:`: the collection prefix, if there is
/// a `:`, and the query after it (the whole text where there is none).
pub open spec fn split_search(s: Seq<char>) -> (Option<Seq<char>>, Seq<char>)
    decreases s.len(),
{
    if s.len() == 0 {
        (None, s)
    } else if s[0] == ':' {
        (Some(Seq::empty()), s.drop_first())
    } else {
        match split_search(s.drop_first()).0 {
            None => (None, s),
            Some(p) => (Some(seq![s[0]] + p), split_search(s.drop_first()).1),
        }
    }
}

/// A text without `:` has no prefix.
pub proof fn lemma_split_without_colon(s: Seq<char>)
    requires
        !s.contains(':'),
    ensures
        split_search(s) == (None::<Seq<char>>, s),
    decreases s.len(),
{
    if s.len() > 0 {
        assert(s[0] != ':') by {
            assert(s.contains(s[0]));
        }
        assert(!s.drop_first().contains(':')) by {
            if s.drop_first().contains(':') {
                let k = choose|k: int| 0 <= k < s.drop_first().len() && s.drop_first()[k] == ':';
                assert(s[k + 1] == ':');
            }
        }
        lemma_split_without_colon(s.drop_first());
    }
}

/// A text split at its first `:`.
pub proof fn lemma_split_at_colon(p: Seq<char>, q: Seq<char>)
    requires
        !p.contains(':'),
    ensures
        split_search(p.push(':') + q) == (Some(p), q),
    decreases p.len(),
{
    let s = p.push(':') + q;
    if p.len() == 0 {
        assert(s[0] == ':');
        assert(s.drop_first() =~= q);
    } else {
        assert(p[0] != ':') by {
            assert(p.contains(p[0]));
        }
        let p1 = p.drop_first();
        assert(!p1.contains(':')) by {
            if p1.contains(':') {
                let k = choose|k: int| 0 <= k < p1.len() && p1[k] == ':';
                assert(p[k + 1] == ':');
            }
        }
        lemma_split_at_colon(p1, q);
        assert(s.drop_first() =~= p1.push(':') + q);
        assert(seq![s[0]] + p1 =~= p);
    }
}

/// The split of a search text as values.
pub proof fn lemma_parse_search_string(s: Seq<char>, r0: Option<String>, r1: Option<String>)
    requires
        match r0 {
            None => !s.contains(':') && (r1 matches Some(q) && q@ == s),
            Some(p) => !p@.contains(':') && (r1 matches Some(q) && s == p@.push(':') + q@),
        },
    ensures
        split_search(s) == (opt_view(r0), or_empty(r1)),
{
    match r0 {
        None => lemma_split_without_colon(s),
        Some(p) => lemma_split_at_colon(p@, or_empty(r1)),
    }
}

} // verus!
