use vstd::prelude::*;

use crate::catalog::{custom_output, icon_placeholder, Config};
use crate::grid::{
    capacity_spec, do_move, items_per_row_spec, move_target, truncate_to_fit, Direction,
};
use crate::messages::{MessageColor, MessageQueue, MESSAGE_LIFETIME_MS};
use crate::query::views;
use crate::text::{push_char, replaced};
use crate::search::{
    lemma_parse_search_string, opt_view, parse_original_search_string, parse_search_string, query,
    search_query, selector, split_search, Cli,
};

verus! {

/// Whether keys move the selection or edit the search text.
#[derive(Debug, Clone, Copy, PartialEq, Eq, Structural)]
pub enum Mode {
    Browsing,
    Searching,
}

/// A key the session reacts to.
#[derive(Debug, Clone, Copy, PartialEq, Eq, Structural)]
pub enum Key {
    Up,
    Down,
    Left,
    Right,
    Enter,
    Esc,
    Backspace,
    Char(char),
}

/// Why the results are to be fetched again.
#[derive(Debug, Clone, Copy, PartialEq, Eq, Structural)]
pub enum Requery {
    /// The search text was committed.
    Commit,
    /// The search was narrowed to the selected icon's collection.
    Collection,
    /// The session started, or the terminal changed size: the committed
    /// search is run again.
    Refresh,
}

/// What the caller is to do after a key.
#[derive(Debug)]
pub enum Action {
    /// Nothing beyond the next frame.
    Nothing,
    /// End the session with no icon chosen.
    Quit,
    /// End the session with this icon chosen.
    Select(String),
    /// Fetch the icons and hand them to `Session::requery`.
    Requery(Requery),
    /// Put this text on the clipboard.
    Copy(String),
    /// Read the configuration and hand it to `Session::custom_output_for`,
    /// for this icon.
    CopyCustom(String),
}

/// The state of an interactive session.
#[derive(Debug)]
pub struct Session {
    /// The search text, as edited.
    pub search_string: String,
    /// The collection prefix of the search that gave the results.
    pub committed_prefix: Option<String>,
    /// The query of the search that gave the results.
    pub committed_query: Option<String>,
    pub mode: Mode,
    pub selected_index: u16,
    pub previously_selected_index: Option<u16>,
    pub results: Vec<String>,
    pub messages: MessageQueue,
}

fn clone_text(t: &Option<String>) -> (r: Option<String>)
    ensures
        r == *t,
{
    match t {
        Some(s) => Some(s.clone()),
        None => None,
    }
}

/// The direction a key moves the selection in while browsing: the arrows,
/// and `h`, `j`, `k`, `l`.
pub open spec fn key_direction(key: Key) -> Option<Direction> {
    match key {
        Key::Up => Some(Direction::Up),
        Key::Down => Some(Direction::Down),
        Key::Left => Some(Direction::Left),
        Key::Right => Some(Direction::Right),
        Key::Char(c) => if c == 'k' {
            Some(Direction::Up)
        } else if c == 'j' {
            Some(Direction::Down)
        } else if c == 'h' {
            Some(Direction::Left)
        } else if c == 'l' {
            Some(Direction::Right)
        } else {
            None
        },
        _ => None,
    }
}

fn direction_of(key: Key) -> (r: Option<Direction>)
    ensures
        r == key_direction(key),
{
    match key {
        Key::Up => Some(Direction::Up),
        Key::Down => Some(Direction::Down),
        Key::Left => Some(Direction::Left),
        Key::Right => Some(Direction::Right),
        Key::Char(c) => {
            if c == 'k' {
                Some(Direction::Up)
            } else if c == 'j' {
                Some(Direction::Down)
            } else if c == 'h' {
                Some(Direction::Left)
            } else if c == 'l' {
                Some(Direction::Right)
            } else {
                None
            }
        },
        _ => None,
    }
}

/// How many results the selection can move among.
pub open spec fn movable(len: int) -> int {
    if len <= 0xffff {
        len
    } else {
        0xffff
    }
}

pub open spec fn copied_text(id: Seq<char>) -> Seq<char> {
    "Copied '"@ + id + "' to clipboard!"@
}

pub open spec fn showing_text(prefix: Seq<char>) -> Seq<char> {
    "Showing collection '"@ + prefix + "'"@
}

pub open spec fn no_match_text() -> Seq<char> {
    "No icons matching search string."@
}

pub open spec fn invalid_text() -> Seq<char> {
    "Invalid search string."@
}

pub open spec fn unavailable_text() -> Seq<char> {
    "Could not load the icons."@
}

pub open spec fn custom_copied_text() -> Seq<char> {
    "Custom output copied to clipboard."@
}

pub open spec fn no_custom_text() -> Seq<char> {
    "No custom output defined."@
}

pub open spec fn search_prompt() -> Seq<char> {
    "Enter search: "@
}

fn copied_message(id: &String) -> (r: String)
    ensures
        r@ == copied_text(id@),
{
    let mut r = String::from_str("Copied '");
    r.append(id.as_str());
    r.append("' to clipboard!");
    r
}

fn showing_message(prefix: &String) -> (r: String)
    ensures
        r@ == showing_text(prefix@),
{
    let mut r = String::from_str("Showing collection '");
    r.append(prefix.as_str());
    r.append("'");
    r
}

/// `n` is `o` with one more message at its end.
pub open spec fn pushed(
    o: MessageQueue,
    n: MessageQueue,
    text: Seq<char>,
    color: MessageColor,
    now: i64,
) -> bool {
    &&& n.messages@.len() == o.messages@.len() + 1
    &&& n.messages@.drop_last() == o.messages@
    &&& n.messages@.last().message@ == text
    &&& n.messages@.last().color == color
    &&& n.messages@.last().delete_at == now + MESSAGE_LIFETIME_MS
}

/// The selection and the messages are as they were.
pub open spec fn same_place(o: Session, n: Session) -> bool {
    &&& n.selected_index == o.selected_index
    &&& n.previously_selected_index == o.previously_selected_index
    &&& n.messages == o.messages
}

/// A key while the search text is edited: Backspace drops its last
/// character, a character is appended, Enter commits it and Esc leaves it;
/// other keys do nothing.
pub open spec fn searching_step(o: Session, n: Session, key: Key, a: Action) -> bool {
    &&& same_place(o, n)
    &&& match key {
        Key::Backspace => n.search_string@ == (if o.search_string@.len() > 0 {
            o.search_string@.drop_last()
        } else {
            o.search_string@
        }) && n.mode == Mode::Searching && a == Action::Nothing,
        Key::Char(c) => n.search_string@ == o.search_string@.push(c) && n.mode == Mode::Searching
            && a == Action::Nothing,
        Key::Enter => n.search_string == o.search_string && n.mode == Mode::Browsing && a
            == Action::Requery(Requery::Commit),
        Key::Esc => n.search_string == o.search_string && n.mode == Mode::Browsing && a
            == Action::Nothing,
        _ => n.search_string == o.search_string && n.mode == Mode::Searching && a
            == Action::Nothing,
    }
}

/// A key while browsing.
pub open spec fn browsing_step(o: Session, n: Session, key: Key, a: Action, cols: u16, now: i64) -> bool {
    let has = o.results@.len() > 0;
    let id = o.results@[o.selected_index as int];
    &&& n.mode == (if key == Key::Char('s') {
        Mode::Searching
    } else {
        Mode::Browsing
    })
    &&& match key_direction(key) {
        Some(d) => {
            &&& a == Action::Nothing
            &&& n.search_string == o.search_string
            &&& n.messages == o.messages
            &&& match move_target(
                d,
                o.selected_index as int,
                movable(o.results@.len() as int),
                items_per_row_spec(cols as int),
            ) {
                Some(k) => n.selected_index as int == k && n.previously_selected_index == Some(
                    o.selected_index,
                ),
                None => n.selected_index == o.selected_index && n.previously_selected_index
                    == o.previously_selected_index,
            }
        },
        None => {
            &&& n.selected_index == o.selected_index
            &&& n.previously_selected_index == o.previously_selected_index
            &&& if key == Key::Enter {
                n.search_string == o.search_string && n.messages == o.messages && a == (if has {
                    Action::Select(id)
                } else {
                    Action::Nothing
                })
            } else if key == Key::Esc || key == Key::Char('q') {
                n.search_string == o.search_string && n.messages == o.messages && a == Action::Quit
            } else if key == Key::Char('c') && has {
                n.search_string == o.search_string && pushed(
                    o.messages,
                    n.messages,
                    copied_text(id@),
                    MessageColor::Green,
                    now,
                ) && a == Action::Copy(id)
            } else if key == Key::Char('C') && has {
                n.search_string == o.search_string && n.messages == o.messages && a
                    == Action::CopyCustom(id)
            } else if key == Key::Char('g') && has && id@.contains(':') {
                let p = split_search(id@).0->Some_0;
                n.search_string@ == p.push(':') && pushed(
                    o.messages,
                    n.messages,
                    showing_text(p),
                    MessageColor::Blue,
                    now,
                ) && a == Action::Requery(Requery::Collection)
            } else {
                n.search_string == o.search_string && n.messages == o.messages && a
                    == Action::Nothing
            }
        },
    }
}

/// The views of the icons handed to `Session::requery`.
pub open spec fn corpus_view(corpus: Option<Vec<String>>) -> Option<Seq<Seq<char>>> {
    match corpus {
        Some(v) => Some(views(v@)),
        None => None,
    }
}

/// The first `n` of `s`, or all of it where it is shorter.
pub open spec fn take_at_most<A>(s: Seq<A>, n: int) -> Seq<A> {
    if s.len() <= n {
        s
    } else {
        s.subrange(0, n)
    }
}

/// The selection is back on the first result, with nothing to clear.
pub open spec fn reset(n: Session) -> bool {
    n.selected_index == 0 && n.previously_selected_index is None
}

/// The prefix and the query that a requery runs: the committed ones for a
/// refresh, else the search text split at its first `:`.
pub open spec fn requery_search(o: Session, kind: Requery) -> (Option<Seq<char>>, Option<Seq<char>>) {
    if kind == Requery::Refresh {
        (opt_view(o.committed_prefix), opt_view(o.committed_query))
    } else {
        (split_search(o.search_string@).0, Some(split_search(o.search_string@).1))
    }
}

/// What fetching the results again does, for the search `requery_search`
/// gives. Where the icons could not be had, the results are emptied and a
/// warning is shown. Where the query does not parse, the results stay and a
/// warning is shown. Else the icons that the search keeps, as many as the
/// grid holds, become the results, and the search becomes the committed
/// one; a committed search that keeps none shows a warning. A commit that
/// ends with a warning goes back to editing the search text.
pub open spec fn requery_step(
    o: Session,
    n: Session,
    kind: Requery,
    corpus: Option<Seq<Seq<char>>>,
    cols: u16,
    rows: u16,
    now: i64,
) -> bool {
    let (prefix, q) = requery_search(o, kind);
    let back = if kind == Requery::Commit {
        Mode::Searching
    } else {
        o.mode
    };
    &&& n.search_string == o.search_string
    &&& match corpus {
        None => {
            &&& n.results@.len() == 0
            &&& reset(n)
            &&& pushed(o.messages, n.messages, unavailable_text(), MessageColor::Yellow, now)
            &&& n.mode == back
            &&& n.committed_prefix == o.committed_prefix
            &&& n.committed_query == o.committed_query
        },
        Some(icons) => match search_query(q) {
            Err(_) => {
                &&& n.results == o.results
                &&& n.selected_index == o.selected_index
                &&& n.previously_selected_index == o.previously_selected_index
                &&& pushed(o.messages, n.messages, invalid_text(), MessageColor::Yellow, now)
                &&& n.mode == back
                &&& n.committed_prefix == o.committed_prefix
                &&& n.committed_query == o.committed_query
            },
            Ok(parsed) => {
                let found = icons.filter(selector(parsed, prefix));
                &&& views(n.results@) == take_at_most(found, capacity_spec(cols as int, rows as int))
                &&& reset(n)
                &&& opt_view(n.committed_prefix) == prefix
                &&& opt_view(n.committed_query) == q
                &&& if found.len() == 0 && kind == Requery::Commit {
                    pushed(o.messages, n.messages, no_match_text(), MessageColor::Yellow, now)
                        && n.mode == Mode::Searching
                } else {
                    n.messages == o.messages && n.mode == o.mode
                }
            },
        },
    }
}

/// Committing a search text whose search keeps no icon shows a warning,
/// goes back to editing, and keeps the text as it was typed.
pub proof fn law_empty_commit_keeps_searching(
    o: Session,
    m: Session,
    n: Session,
    a: Action,
    icons: Seq<Seq<char>>,
    cols: u16,
    rows: u16,
    now: i64,
)
    requires
        o.mode == Mode::Searching,
        searching_step(o, m, Key::Enter, a),
        requery_step(m, n, Requery::Commit, Some(icons), cols, rows, now),
        search_query(Some(split_search(o.search_string@).1)) matches Ok(q) && icons.filter(
            selector(q, split_search(o.search_string@).0),
        ).len() == 0,
    ensures
        a == Action::Requery(Requery::Commit),
        n.mode == Mode::Searching,
        n.search_string == o.search_string,
        n.results@.len() == 0,
        reset(n),
        pushed(o.messages, n.messages, no_match_text(), MessageColor::Yellow, now),
{
    assert(views(n.results@).len() == n.results@.len());
}

impl Session {
    /// The selection stands on a result, or at 0 where there is none.
    pub open spec fn wf(&self) -> bool {
        if self.results@.len() == 0 {
            self.selected_index == 0
        } else {
            self.selected_index < self.results@.len()
        }
    }

    /// A session that browses no results yet, with the search text that the
    /// options stand for.
    pub fn new(args: &Cli) -> (r: Session)
        ensures
            r.wf(),
            r.search_string@ == crate::search::initial_search(args.prefix, args.query),
            r.committed_prefix == args.prefix,
            r.committed_query == args.query,
            r.mode == Mode::Browsing,
            r.selected_index == 0,
            r.previously_selected_index is None,
            r.results@.len() == 0,
            r.messages.messages@.len() == 0,
    {
        Session {
            search_string: parse_original_search_string(args),
            committed_prefix: clone_text(&args.prefix),
            committed_query: clone_text(&args.query),
            mode: Mode::Browsing,
            selected_index: 0,
            previously_selected_index: None,
            results: Vec::new(),
            messages: MessageQueue::new(),
        }
    }

    /// Reacts to one key on a terminal `cols` columns wide, at time `now`.
    pub fn handle_key(&mut self, key: Key, cols: u16, now: i64) -> (a: Action)
        requires
            old(self).wf(),
            now <= i64::MAX - MESSAGE_LIFETIME_MS,
        ensures
            final(self).wf(),
            final(self).results == old(self).results,
            final(self).committed_prefix == old(self).committed_prefix,
            final(self).committed_query == old(self).committed_query,
            old(self).mode == Mode::Searching ==> searching_step(*old(self), *final(self), key, a),
            old(self).mode == Mode::Browsing ==> browsing_step(
                *old(self),
                *final(self),
                key,
                a,
                cols,
                now,
            ),
    {
        match self.mode {
            Mode::Searching => match key {
                Key::Backspace => {
                    let n = self.search_string.as_str().unicode_len();
                    if n > 0 {
                        let t = String::from_str(self.search_string.as_str().substring_char(0, n - 1));
                        self.search_string = t;
                    }
                    Action::Nothing
                },
                Key::Char(c) => {
                    push_char(&mut self.search_string, c);
                    Action::Nothing
                },
                Key::Enter => {
                    self.mode = Mode::Browsing;
                    Action::Requery(Requery::Commit)
                },
                Key::Esc => {
                    self.mode = Mode::Browsing;
                    Action::Nothing
                },
                _ => Action::Nothing,
            },
            Mode::Browsing => {
                if let Some(d) = direction_of(key) {
                    let items: u16 = if self.results.len() <= 0xffff {
                        self.results.len() as u16
                    } else {
                        0xffff
                    };
                    do_move(
                        d,
                        &mut self.selected_index,
                        &mut self.previously_selected_index,
                        items,
                        &cols,
                    );
                    return Action::Nothing;
                }
                let has = self.results.len() > 0;
                match key {
                    Key::Enter => {
                        if has {
                            Action::Select(self.results[self.selected_index as usize].clone())
                        } else {
                            Action::Nothing
                        }
                    },
                    Key::Esc => Action::Quit,
                    Key::Char(c) => {
                        if c == 'q' {
                            Action::Quit
                        } else if c == 's' {
                            self.mode = Mode::Searching;
                            Action::Nothing
                        } else if c == 'c' && has {
                            let id = self.results[self.selected_index as usize].clone();
                            let ghost before = self.messages.messages@;
                            self.messages.push(copied_message(&id), MessageColor::Green, now);
                            assert(self.messages.messages@.drop_last() =~= before);
                            Action::Copy(id)
                        } else if c == 'C' && has {
                            Action::CopyCustom(self.results[self.selected_index as usize].clone())
                        } else if c == 'g' && has {
                            let id = self.results[self.selected_index as usize].clone();
                            let (p, q) = parse_search_string(id.as_str());
                            proof {
                                lemma_parse_search_string(id@, p, q);
                            }
                            match p {
                                Some(p) => {
                                    assert(id@[p@.len() as int] == ':');
                                    let mut s = p.clone();
                                    let sep = ":";
                                    proof {
                                        reveal_strlit(":");
                                    }
                                    s.append(sep);
                                    assert(s@ =~= p@.push(':'));
                                    self.search_string = s;
                                    let ghost before = self.messages.messages@;
                                    self.messages.push(showing_message(&p), MessageColor::Blue, now);
                                    assert(self.messages.messages@.drop_last() =~= before);
                                    Action::Requery(Requery::Collection)
                                },
                                None => Action::Nothing,
                            }
                        } else {
                            Action::Nothing
                        }
                    },
                    _ => Action::Nothing,
                }
            },
        }
    }

    /// Takes the icons fetched for a `Requery` action, or `None` where they
    /// could not be had, for a terminal of `cols` columns and `rows` rows.
    pub fn requery(
        &mut self,
        kind: Requery,
        corpus: Option<Vec<String>>,
        cols: u16,
        rows: u16,
        now: i64,
    )
        requires
            old(self).wf(),
            now <= i64::MAX - MESSAGE_LIFETIME_MS,
        ensures
            final(self).wf(),
            requery_step(*old(self), *final(self), kind, corpus_view(corpus), cols, rows, now),
    {
        let (p, q) = if kind == Requery::Refresh {
            (clone_text(&self.committed_prefix), clone_text(&self.committed_query))
        } else {
            let (p, q) = parse_search_string(self.search_string.as_str());
            proof {
                lemma_parse_search_string(self.search_string@, p, q);
            }
            (p, q)
        };
        assert(requery_search(*old(self), kind) == (opt_view(p), opt_view(q)));
        let ghost before = self.messages.messages@;
        match corpus {
            None => {
                self.results = Vec::new();
                self.selected_index = 0;
                self.previously_selected_index = None;
                self.messages.push(
                    String::from_str("Could not load the icons."),
                    MessageColor::Yellow,
                    now,
                );
                assert(self.messages.messages@.drop_last() =~= before);
                if kind == Requery::Commit {
                    self.mode = Mode::Searching;
                }
            },
            Some(icons) => match query(&icons, &q, &p) {
                Err(_) => {
                    self.messages.push(
                        String::from_str("Invalid search string."),
                        MessageColor::Yellow,
                        now,
                    );
                    assert(self.messages.messages@.drop_last() =~= before);
                    if kind == Requery::Commit {
                        self.mode = Mode::Searching;
                    }
                },
                Ok(found) => {
                    let none = found.len() == 0;
                    let mut found = found;
                    let ghost all = found@;
                    truncate_to_fit(&mut found, cols, rows);
                    assert(views(found@) =~= take_at_most(
                        views(all),
                        capacity_spec(cols as int, rows as int),
                    ));
                    self.results = found;
                    self.selected_index = 0;
                    self.previously_selected_index = None;
                    self.committed_prefix = p;
                    self.committed_query = q;
                    if none && kind == Requery::Commit {
                        self.messages.push(
                            String::from_str("No icons matching search string."),
                            MessageColor::Yellow,
                            now,
                        );
                        assert(self.messages.messages@.drop_last() =~= before);
                        self.mode = Mode::Searching;
                    }
                },
            },
        }
    }

    /// The configured output for `icon`, to go on the clipboard; a message
    /// says whether there is one.
    pub fn custom_output_for(&mut self, config: &Config, icon: &str, now: i64) -> (r: Option<
        String,
    >)
        requires
            now <= i64::MAX - MESSAGE_LIFETIME_MS,
        ensures
            final(self).search_string == old(self).search_string,
            final(self).committed_prefix == old(self).committed_prefix,
            final(self).committed_query == old(self).committed_query,
            final(self).mode == old(self).mode,
            final(self).results == old(self).results,
            final(self).selected_index == old(self).selected_index,
            final(self).previously_selected_index == old(self).previously_selected_index,
            match config.custom_output {
                Some(t) => if t@.len() > 0 {
                    r matches Some(s) && s@ == replaced(t@, icon_placeholder(), icon@)
                } else {
                    r is None
                },
                None => r is None,
            },
            r is Some ==> pushed(
                old(self).messages,
                final(self).messages,
                custom_copied_text(),
                MessageColor::Green,
                now,
            ),
            r is None ==> pushed(
                old(self).messages,
                final(self).messages,
                no_custom_text(),
                MessageColor::Yellow,
                now,
            ),
    {
        let r = custom_output(config, icon);
        let ghost before = self.messages.messages@;
        if r.is_some() {
            self.messages.push(
                String::from_str("Custom output copied to clipboard."),
                MessageColor::Green,
                now,
            );
        } else {
            self.messages.push(
                String::from_str("No custom output defined."),
                MessageColor::Yellow,
                now,
            );
        }
        assert(self.messages.messages@.drop_last() =~= before);
        r
    }

    /// The bottom line of the screen: the search text being edited, else the
    /// selected identifier, if any.
    pub fn status_line(&self) -> (r: Option<String>)
        requires
            self.wf(),
        ensures
            self.mode == Mode::Searching ==> (r matches Some(s) && s@ == search_prompt()
                + self.search_string@),
            self.mode == Mode::Browsing ==> if self.results@.len() > 0 {
                r == Some(self.results@[self.selected_index as int])
            } else {
                r is None
            },
    {
        match self.mode {
            Mode::Searching => {
                let mut s = String::from_str("Enter search: ");
                s.append(self.search_string.as_str());
                Some(s)
            },
            Mode::Browsing => {
                if self.results.len() > 0 {
                    Some(self.results[self.selected_index as usize].clone())
                } else {
                    None
                }
            },
        }
    }
}

} // verus!
