//! How games and characters are named and linked: display names taken from
//! file names, and the URLs of the game pages and of the write requests.

use vstd::prelude::*;
use crate::text::{
    append_chars, chars_of, find_char, is_white, trim_end, trim_start, index_of_char, lemma_find_char, replace_all, replaced, starts_with,
    starts_with_at, string_of, string_of_range, trim, trimmed,
};
use crate::paths::{file_stem, path_file_stem};
use crate::urlcode::{url_encode, url_encoded};

verus! {

/// The tag that marks Animal Crossing card dumps: `[AC]`.
pub open spec fn ac_tag() -> Seq<char> {
    seq!['[', 'A', 'C', ']']
}

/// The word that game directory names carry: `Amiibo`.
pub open spec fn amiibo_word() -> Seq<char> {
    seq!['A', 'm', 'i', 'i', 'b', 'o']
}

/// The path of the page of a game: `/game/`.
pub open spec fn game_page_prefix() -> Seq<char> {
    seq!['/', 'g', 'a', 'm', 'e', '/']
}

/// The start of a write request: `/write?path=`.
pub open spec fn write_request_prefix() -> Seq<char> {
    seq!['/', 'w', 'r', 'i', 't', 'e', '?', 'p', 'a', 't', 'h', '=']
}

/// The display name of a character dump named `name`: for a name that starts
/// with `[AC]` once leading white space is ignored, everything after its first
/// `-` (the whole name when it has none); for any other name, the name with
/// every `[AC]` removed and white space trimmed from both ends.
pub open spec fn display_name(name: Seq<char>) -> Seq<char> {
    if starts_with(trim(name), ac_tag()) {
        match find_char(name, '-') {
            Some(i) => name.skip(i + 1),
            None => name,
        }
    } else {
        trim(replace_all(name, ac_tag(), seq![]))
    }
}

/// The title of a game whose directory is named `stem`: the name with every
/// `Amiibo` removed and white space trimmed from both ends.
pub open spec fn game_title(stem: Seq<char>) -> Seq<char> {
    trim(replace_all(stem, amiibo_word(), seq![]))
}

/// The URL of the page of the game whose directory is named `stem`.
pub open spec fn game_url(stem: Seq<char>) -> Seq<char> {
    game_page_prefix() + stem
}

/// The URL that asks for the dump at `path` to be written to a tag.
pub open spec fn write_url(path: Seq<char>) -> Seq<char> {
    write_request_prefix() + url_encoded(path)
}

/// The display name of a character dump named `name`, as [`display_name`] says.
pub fn name_replacer(name: &str) -> (r: String)
    ensures
        r@ == display_name(name@),
{
    let v = chars_of(name);
    let tag: Vec<char> = vec!['[', 'A', 'C', ']'];
    assert(tag@ =~= ac_tag());
    let t = trimmed(&v);
    let tagged = starts_with_at(&t, 0, &tag);
    assert(t@.skip(0) =~= t@);
    if tagged {
        match index_of_char(&v, '-') {
            None => string_of(&v),
            Some(i) => {
                proof {
                    lemma_find_char(v@, '-');
                }
                assert(v@.subrange(i + 1, v@.len() as int) =~= v@.skip(i + 1));
                let n = v.len();
                string_of_range(&v, i + 1, n)
            },
        }
    } else {
        let empty: Vec<char> = Vec::new();
        let cleaned = replaced(&v, &tag, &empty);
        let r = trimmed(&cleaned);
        string_of(&r)
    }
}

/// A game of the catalogue: its title and the URL of its page.
pub struct Game {
    pub name: String,
    pub url: String,
}

impl Game {
    /// The game whose directory is named `stem`: its title is
    /// [`game_title`] and its URL [`game_url`].
    pub fn from_stem(stem: &str) -> (g: Game)
        ensures
            g.name@ == game_title(stem@),
            g.url@ == game_url(stem@),
    {
        let v = chars_of(stem);
        let word: Vec<char> = vec!['A', 'm', 'i', 'i', 'b', 'o'];
        assert(word@ =~= amiibo_word());
        let empty: Vec<char> = Vec::new();
        let cleaned = replaced(&v, &word, &empty);
        let title = trimmed(&cleaned);
        let prefix: Vec<char> = vec!['/', 'g', 'a', 'm', 'e', '/'];
        assert(prefix@ =~= game_page_prefix());
        let mut url = string_of(&prefix);
        append_chars(&mut url, &v);
        Game { name: string_of(&title), url }
    }

    /// The game whose directory lies at `path`, named by the file stem of the
    /// path; `None` when the path has no file stem.
    pub fn from_path(path: &str) -> (r: Option<Game>)
        ensures
            match file_stem(path@) {
                Some(stem) => r matches Some(g) && g.name@ == game_title(stem) && g.url@
                    == game_url(stem),
                None => r is None,
            },
    {
        let v = chars_of(path);
        match path_file_stem(&v) {
            None => None,
            Some(stem) => {
                let s = string_of(&stem);
                Some(Game::from_stem(s.as_str()))
            },
        }
    }
}

/// A character of a game: its display name and the URL that writes its dump.
pub struct Character {
    pub name: String,
    pub url: String,
}

/// What a character is made of: its display name and its write URL.
pub open spec fn character_view(c: Character) -> (Seq<char>, Seq<char>) {
    (c.name@, c.url@)
}

/// The character for the dump at `path`: named by [`display_name`] of the
/// file stem, linked by [`write_url`]; `None` when the path has no file stem.
pub open spec fn character_at(path: Seq<char>) -> Option<(Seq<char>, Seq<char>)> {
    match file_stem(path) {
        Some(stem) => Some((display_name(stem), write_url(path))),
        None => None,
    }
}

impl Character {
    /// The character for the dump at `path`, as [`character_at`] says.
    pub fn from_path(path: &str) -> (r: Option<Character>)
        ensures
            match character_at(path@) {
                Some(c) => r matches Some(x) && character_view(x) == c,
                None => r is None,
            },
    {
        let v = chars_of(path);
        match path_file_stem(&v) {
            None => None,
            Some(stem) => {
                let s = string_of(&stem);
                let name = name_replacer(s.as_str());
                let prefix: Vec<char> = vec![
                    '/',
                    'w',
                    'r',
                    'i',
                    't',
                    'e',
                    '?',
                    'p',
                    'a',
                    't',
                    'h',
                    '=',
                ];
                assert(prefix@ =~= write_request_prefix());
                let mut url = string_of(&prefix);
                let encoded = url_encode(path);
                let ev = chars_of(encoded.as_str());
                append_chars(&mut url, &ev);
                Some(Character { name, url })
            },
        }
    }
}

/// The query of a write request: the percent-encoded path of the dump to write.
pub struct ExecuteQuery {
    pub path: String,
}

proof fn lemma_replace_push(s: Seq<char>, c: char, pat: Seq<char>, rep: Seq<char>)
    requires
        pat.len() > 0,
        forall|i: int| 0 <= i < pat.len() ==> pat[i] != c,
    ensures
        replace_all(s + seq![c], pat, rep) == replace_all(s, pat, rep) + seq![c],
    decreases s.len(),
{
    let t = s + seq![c];
    if s.len() == 0 {
        assert(t =~= seq![c]);
        if starts_with(t, pat) {
            assert(t.take(pat.len() as int)[0] == pat[0]);
        }
        assert(t.drop_first() =~= Seq::<char>::empty());
        assert(replace_all(Seq::<char>::empty(), pat, rep) =~= Seq::<char>::empty());
        assert(replace_all(t, pat, rep) =~= seq![c]);
    } else if starts_with(s, pat) {
        assert(t.take(pat.len() as int) =~= s.take(pat.len() as int));
        assert(t.skip(pat.len() as int) =~= s.skip(pat.len() as int) + seq![c]);
        lemma_replace_push(s.skip(pat.len() as int), c, pat, rep);
        assert(replace_all(t, pat, rep) =~= replace_all(s, pat, rep) + seq![c]);
    } else {
        if starts_with(t, pat) {
            if pat.len() > s.len() {
                assert(pat[pat.len() - 1] == t.take(pat.len() as int)[pat.len() - 1]);
            } else {
                assert(s.take(pat.len() as int) =~= t.take(pat.len() as int));
            }
        }
        assert(t.drop_first() =~= s.drop_first() + seq![c]);
        lemma_replace_push(s.drop_first(), c, pat, rep);
        assert(replace_all(t, pat, rep) =~= replace_all(s, pat, rep) + seq![c]);
    }
}

proof fn lemma_trim_end_start_push(x: Seq<char>, w: char)
    requires
        is_white(w),
    ensures
        trim_end(trim_start(x + seq![w])) == trim_end(trim_start(x)),
    decreases x.len(),
{
    let t = x + seq![w];
    if x.len() == 0 {
        assert(t.drop_first() =~= Seq::<char>::empty());
        assert(trim_start(t) == trim_start(Seq::<char>::empty()));
    } else if is_white(x[0]) {
        assert(t.drop_first() =~= x.drop_first() + seq![w]);
        lemma_trim_end_start_push(x.drop_first(), w);
    } else {
        assert(trim_start(t) == t);
        assert(trim_start(x) == x);
        assert(t.drop_last() =~= x);
    }
}

/// Outer blanks make no difference to a name that is not led by the `[AC]`
/// tag: a space before and after it leaves its display name unchanged.
pub proof fn law_outer_blanks_ignored(name: Seq<char>)
    requires
        !starts_with(trim(name), ac_tag()),
    ensures
        display_name(seq![' '] + name + seq![' ']) == display_name(name),
{
    let padded = seq![' '] + name + seq![' '];
    let inner = name + seq![' '];
    assert(padded.drop_first() =~= inner);
    assert(trim_start(padded) == trim_start(inner));
    lemma_trim_end_start_push(name, ' ');
    assert(trim(padded) == trim(name));
    let empty: Seq<char> = seq![];
    assert(!starts_with(padded, ac_tag())) by {
        if padded.len() >= 4 {
            assert(padded.take(4)[0] == padded[0]);
            assert(padded[0] == ' ');
        }
    }
    assert(replace_all(padded, ac_tag(), empty) == seq![' '] + replace_all(inner, ac_tag(), empty));
    lemma_replace_push(name, ' ', ac_tag(), empty);
    let r = replace_all(name, ac_tag(), empty);
    let rp = seq![' '] + r + seq![' '];
    assert(replace_all(padded, ac_tag(), empty) =~= rp);
    assert(rp.drop_first() =~= r + seq![' ']);
    assert(trim_start(rp) == trim_start(r + seq![' ']));
    lemma_trim_end_start_push(r, ' ');
}

/// A name that is not led by the `[AC]` tag is cleaned, not cut: its display
/// name is the name with every `[AC]` removed and outer white space trimmed,
/// whatever dashes it holds.
pub proof fn law_untagged_names_are_cleaned(name: Seq<char>)
    requires
        !starts_with(trim(name), ac_tag()),
    ensures
        display_name(name) == trim(replace_all(name, ac_tag(), seq![])),
{
}

proof fn lemma_replace_none(s: Seq<char>, pat: Seq<char>, rep: Seq<char>)
    requires
        pat.len() > 0,
        forall|i: int| 0 <= i <= s.len() ==> !starts_with(#[trigger] s.skip(i), pat),
    ensures
        replace_all(s, pat, rep) == s,
    decreases s.len(),
{
    if s.len() > 0 {
        assert(s.skip(0) =~= s);
        assert forall|i: int| 0 <= i <= s.drop_first().len() implies !starts_with(
            #[trigger] s.drop_first().skip(i),
            pat,
        ) by {
            assert(s.drop_first().skip(i) =~= s.skip(i + 1));
        }
        lemma_replace_none(s.drop_first(), pat, rep);
        assert(seq![s[0]] + s.drop_first() =~= s);
    }
}

/// A plain name is its own display name: a name holding no `[AC]` and with
/// no white space at either end is shown as it is, dash or not.
pub proof fn law_plain_names_unchanged(name: Seq<char>)
    requires
        forall|i: int| 0 <= i <= name.len() ==> !starts_with(#[trigger] name.skip(i), ac_tag()),
        name.len() > 0 ==> !is_white(name[0]) && !is_white(name.last()),
    ensures
        display_name(name) == name,
{
    assert(trim_start(name) == name);
    assert(trim_end(name) == name);
    assert(name.skip(0) =~= name);
    lemma_replace_none(name, ac_tag(), seq![]);
}

} // verus!
