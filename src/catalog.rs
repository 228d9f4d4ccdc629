use std::collections::HashMap;

use vstd::prelude::*;

use crate::search::{lemma_parse_search_string, parse_search_string, split_search, Cli};
use crate::text::{decimal, decimal_string, replace_all, replaced};

verus! {

/// Metadata of an icon set that carries none.
#[derive(Debug, Clone)]
pub struct Info {}

/// Who made an icon set.
#[derive(Debug, Clone)]
pub struct Author {
    pub name: String,
    pub url: Option<String>,
}

/// Under which terms an icon set may be used.
#[derive(Debug, Clone)]
pub struct License {
    pub title: String,
    pub spdx: String,
    pub url: Option<String>,
}

/// The description of an icon set.
#[derive(Debug, Clone)]
pub struct Collection {
    pub name: String,
    pub total: usize,
    pub author: Author,
    pub license: License,
    pub samples: Vec<String>,
    pub height: Option<usize>,
    pub category: Option<String>,
    pub palette: bool,
}

/// A search as a remote index takes it.
#[derive(Debug, Clone)]
pub struct SearchRequest {
    pub query: String,
    pub prefix: Option<String>,
}

/// What a remote index answers to a search.
#[derive(Debug, Clone)]
pub struct SearchResponse {
    pub icons: Vec<String>,
    pub total: usize,
    pub limit: usize,
    pub start: usize,
    pub collections: HashMap<String, Collection>,
    pub request: SearchRequest,
}

/// One icon of a set: its name and the SVG markup of its body.
#[derive(Debug, Clone)]
pub struct Icon {
    pub name: String,
    pub body: String,
}

/// An icon set with its icons.
#[derive(Debug, Clone)]
pub struct IconCollection {
    pub prefix: String,
    pub width: Option<usize>,
    pub height: Option<usize>,
    pub suffixes: Option<HashMap<String, String>>,
    pub last_modified: usize,
    pub info: Collection,
    pub icons: Vec<Icon>,
}

impl IconCollection {
    /// No two icons of the set share a name, as no two keys of the set's
    /// JSON object do.
    pub open spec fn names_unique(&self) -> bool {
        forall|i: int, j: int|
            0 <= i < j < self.icons@.len() ==> #[trigger] self.icons@[i].name@
                != #[trigger] self.icons@[j].name@
    }
}

/// The user's settings.
#[derive(Debug, Clone)]
pub struct Config {
    pub default_browse: Option<bool>,
    pub custom_output: Option<String>,
}

/// Size of an icon's view box where its set gives none.
pub const DEFAULT_ICON_SIZE: usize = 16;

/// Why an icon's markup could not be had.
#[derive(Debug, Clone, Copy, PartialEq, Eq, Structural)]
pub enum IconError {
    /// The identifier has no `collection:` part.
    MissingPrefix,
    /// The set has no icon of that name.
    NotFound,
}

/// The first icon of `icons` named `name`.
pub open spec fn find_icon(icons: Seq<Icon>, name: Seq<char>) -> Option<Icon>
    decreases icons.len(),
{
    if icons.len() == 0 {
        None
    } else {
        match find_icon(icons.drop_last(), name) {
            Some(i) => Some(i),
            None => if icons.last().name@ == name {
                Some(icons.last())
            } else {
                None
            },
        }
    }
}

pub open spec fn size_or_default(s: Option<usize>) -> usize {
    match s {
        Some(n) => n,
        None => DEFAULT_ICON_SIZE,
    }
}

/// The view box width and height and the body of the icon
/// `collection:name` in `collection`, the set that its prefix names: the
/// one icon of that name, where there is one.
pub fn get_icon_xml(icon_identifier: &str, collection: &IconCollection) -> (r: Result<
    (usize, usize, String),
    IconError,
>)
    requires
        collection.names_unique(),
    ensures
        match split_search(icon_identifier@) {
            (None, _) => r == Err::<(usize, usize, String), IconError>(IconError::MissingPrefix),
            (Some(_), name) => match find_icon(collection.icons@, name) {
                None => r == Err::<(usize, usize, String), IconError>(IconError::NotFound),
                Some(icon) => r matches Ok((w, h, body)) && w == size_or_default(collection.width)
                    && h == size_or_default(collection.height) && body@ == icon.body@,
            },
        },
{
    let (p, q) = parse_search_string(icon_identifier);
    proof {
        lemma_parse_search_string(icon_identifier@, p, q);
    }
    if p.is_none() {
        return Err(IconError::MissingPrefix);
    }
    let name = match q {
        Some(n) => n,
        None => String::new(),
    };
    assert(split_search(icon_identifier@).1 == name@);
    let mut i: usize = 0;
    while i < collection.icons.len()
        invariant
            i <= collection.icons.len(),
            split_search(icon_identifier@).0 is Some,
            split_search(icon_identifier@).1 == name@,
            find_icon(collection.icons@.subrange(0, i as int), name@) is None,
        decreases collection.icons.len() - i,
    {
        let ghost seen = collection.icons@.subrange(0, i + 1);
        assert(seen.drop_last() =~= collection.icons@.subrange(0, i as int));
        if collection.icons[i].name == name {
            assert(find_icon(seen, name@) == Some(collection.icons@[i as int]));
            proof {
                lemma_find_icon_prefix(collection.icons@, i + 1, name@);
            }
            let width = match collection.width {
                Some(w) => w,
                None => DEFAULT_ICON_SIZE,
            };
            let height = match collection.height {
                Some(h) => h,
                None => DEFAULT_ICON_SIZE,
            };
            return Ok((width, height, collection.icons[i].body.clone()));
        }
        i = i + 1;
    }
    assert(collection.icons@.subrange(0, i as int) =~= collection.icons@);
    Err(IconError::NotFound)
}

/// Where a prefix of `icons` has an icon named `name`, the first such icon
/// is the first in all of `icons`.
proof fn lemma_find_icon_prefix(icons: Seq<Icon>, k: int, name: Seq<char>)
    requires
        0 <= k <= icons.len(),
        find_icon(icons.subrange(0, k), name) is Some,
    ensures
        find_icon(icons, name) == find_icon(icons.subrange(0, k), name),
    decreases icons.len() - k,
{
    if k < icons.len() {
        let next = icons.subrange(0, k + 1);
        assert(next.drop_last() =~= icons.subrange(0, k));
        lemma_find_icon_prefix(icons, k + 1, name);
    } else {
        assert(icons.subrange(0, k) =~= icons);
    }
}

/// The identifiers `prefix:name` of the icons of one set, in order.
pub open spec fn ids_in(c: IconCollection) -> Seq<Seq<char>> {
    c.icons@.map_values(|i: Icon| c.prefix@.push(':') + i.name@)
}

/// The identifiers of all icons of `cs`, set after set.
pub open spec fn cached_ids(cs: Seq<IconCollection>) -> Seq<Seq<char>>
    decreases cs.len(),
{
    if cs.len() == 0 {
        Seq::empty()
    } else {
        cached_ids(cs.drop_last()) + ids_in(cs.last())
    }
}

/// The identifiers of all icons of `collections`, set after set.
pub fn generate_cached_icons(collections: &Vec<IconCollection>) -> (r: Vec<String>)
    ensures
        crate::query::views(r@) == cached_ids(collections@),
{
    let mut icons: Vec<String> = Vec::new();
    let mut k: usize = 0;
    while k < collections.len()
        invariant
            k <= collections.len(),
            crate::query::views(icons@) == cached_ids(collections@.subrange(0, k as int)),
        decreases collections.len() - k,
    {
        let c = &collections[k];
        let ghost start = crate::query::views(icons@);
        let mut j: usize = 0;
        while j < c.icons.len()
            invariant
                j <= c.icons.len(),
                crate::query::views(icons@) == start + ids_in(*c).subrange(0, j as int),
            decreases c.icons.len() - j,
        {
            let mut id = c.prefix.clone();
            let sep = ":";
            proof {
                reveal_strlit(":");
            }
            id.append(sep);
            id.append(c.icons[j].name.as_str());
            assert(id@ =~= c.prefix@.push(':') + c.icons@[j as int].name@);
            let ghost before = icons@;
            icons.push(id);
            assert(crate::query::views(icons@) =~= crate::query::views(before).push(id@));
            assert(ids_in(*c).subrange(0, j + 1) =~= ids_in(*c).subrange(0, j as int).push(id@));
            j = j + 1;
        }
        assert(ids_in(*c).subrange(0, j as int) =~= ids_in(*c));
        assert(collections@.subrange(0, k + 1).drop_last() =~= collections@.subrange(0, k as int));
        k = k + 1;
    }
    assert(collections@.subrange(0, k as int) =~= collections@);
    icons
}

/// Whether the session opens the browser: the flag, or the configured
/// default, unless it is switched off for this session.
pub fn should_browse(args: &Cli, config: &Config) -> (r: bool)
    ensures
        r == match config.default_browse {
            Some(d) => (args.browse || d) && !args.no_browse,
            None => args.browse,
        },
{
    match config.default_browse {
        Some(d) => (args.browse || d) && !args.no_browse,
        None => args.browse,
    }
}

/// The placeholder that a custom output template holds for the icon.
pub open spec fn icon_placeholder() -> Seq<char> {
    "{icon}"@
}

/// The configured output for `icon`: the template with each placeholder
/// replaced by the identifier, where a nonempty template is configured.
pub fn custom_output(config: &Config, icon: &str) -> (r: Option<String>)
    ensures
        match config.custom_output {
            Some(t) => if t@.len() > 0 {
                r matches Some(s) && s@ == replaced(t@, icon_placeholder(), icon@)
            } else {
                r is None
            },
            None => r is None,
        },
{
    match &config.custom_output {
        Some(t) => {
            if t.as_str().unicode_len() > 0 {
                let placeholder = "{icon}";
                proof {
                    reveal_strlit("{icon}");
                }
                Some(replace_all(t.as_str(), placeholder, icon))
            } else {
                None
            }
        },
        None => None,
    }
}

/// The opening of a preview document, up to the view box size.
pub open spec fn svg_open() -> Seq<char> {
    "<svg xmlns=\"http://www.w3.org/2000/svg\" width=\"96\" height=\"96\" color=\"white\" viewBox=\"0 0 "@
}

/// Black strokes, which a preview on a dark terminal turns white.
pub open spec fn black_stroke() -> Seq<char> {
    "stroke=\"#000\""@
}

pub open spec fn white_stroke() -> Seq<char> {
    "stroke=\"#fff\""@
}

/// The SVG document that shows an icon's body with view box
/// `width` by `height`, its black strokes made white.
pub open spec fn svg_document_spec(width: usize, height: usize, body: Seq<char>) -> Seq<char> {
    svg_open() + decimal(width as nat) + " "@ + decimal(height as nat) + "\">"@ + replaced(
        body,
        black_stroke(),
        white_stroke(),
    ) + "</svg>"@
}

/// The SVG document that previews an icon.
pub fn svg_document(width: usize, height: usize, body: &str) -> (r: String)
    ensures
        r@ == svg_document_spec(width, height, body@),
{
    let mut r = String::from_str(
        "<svg xmlns=\"http://www.w3.org/2000/svg\" width=\"96\" height=\"96\" color=\"white\" viewBox=\"0 0 ",
    );
    let w = decimal_string(width);
    r.append(w.as_str());
    r.append(" ");
    let h = decimal_string(height);
    r.append(h.as_str());
    r.append("\">");
    let black = "stroke=\"#000\"";
    proof {
        reveal_strlit("stroke=\"#000\"");
    }
    let body = replace_all(body, black, "stroke=\"#fff\"");
    r.append(body.as_str());
    r.append("</svg>");
    r
}

} // verus!
