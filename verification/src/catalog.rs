//! The catalogue of games and of the characters of a game, built from the
//! listings of the directories under the amiibo root.

use vstd::prelude::*;
use crate::names::{character_at, character_view, game_title, game_url, Character, Game};
use crate::paths::{amiibo_root, category_title, file_stem, join, path_category_title, path_join};
use crate::text::{chars_of, string_of};

verus! {

/// What a character is made of: its display name and its write URL.
pub type CharacterView = (Seq<char>, Seq<char>);

/// What a category is made of: its title and its characters.
pub type CategoryView = (Seq<char>, Seq<CharacterView>);

/// An entry of a directory listing, named by its file name.
pub enum Entry {
    File(String),
    Dir(String),
}

/// An entry of the directory of a category: a dump, or a directory together
/// with the listing of its entries (empty when it could not be read).
pub enum CategoryEntry {
    File(String),
    Dir(String, Vec<Entry>),
}

/// An entry of the directory of a game: a dump, or a category directory
/// together with the listing of its entries (empty when it could not be read).
pub enum GameEntry {
    File(String),
    Dir(String, Vec<CategoryEntry>),
}

/// The characters of a game: those whose dumps lie directly in the game's
/// directory, and those of each category, by category title.
pub struct GameAmiibo {
    pub game: String,
    pub basic: Vec<Character>,
    pub categories: Vec<(String, Vec<Character>)>,
}

/// What a list of characters is made of.
pub open spec fn characters_view(v: Seq<Character>) -> Seq<CharacterView> {
    v.map_values(|c: Character| character_view(c))
}

/// What a list of categories is made of.
pub open spec fn categories_view(v: Seq<(String, Vec<Character>)>) -> Seq<CategoryView> {
    v.map_values(|p: (String, Vec<Character>)| (p.0@, characters_view(p.1@)))
}

/// The games of the catalogue, one for each directory entry of the amiibo
/// root whose path has a file stem, in listing order.
pub open spec fn games_of(entries: Seq<Entry>) -> Seq<CharacterView>
    decreases entries.len(),
{
    if entries.len() == 0 {
        seq![]
    } else {
        let before = games_of(entries.drop_last());
        match entries.last() {
            Entry::Dir(name) => match file_stem(join(amiibo_root(), name@)) {
                Some(stem) => before.push((game_title(stem), game_url(stem))),
                None => before,
            },
            Entry::File(_) => before,
        }
    }
}

/// The characters of the dumps among `entries` of the directory `dir`, in
/// listing order, leaving out dumps whose paths have no file stem.
pub open spec fn characters_of(dir: Seq<char>, entries: Seq<Entry>) -> Seq<CharacterView>
    decreases entries.len(),
{
    if entries.len() == 0 {
        seq![]
    } else {
        let before = characters_of(dir, entries.drop_last());
        match entries.last() {
            Entry::File(name) => match character_at(join(dir, name@)) {
                Some(c) => before.push(c),
                None => before,
            },
            Entry::Dir(_) => before,
        }
    }
}

/// The dumps of a category directory listing, as plain entries.
pub open spec fn category_files(entries: Seq<CategoryEntry>) -> Seq<Entry> {
    entries.map_values(
        |e: CategoryEntry|
            match e {
                CategoryEntry::File(n) => Entry::File(n),
                CategoryEntry::Dir(n, _) => Entry::Dir(n),
            },
    )
}

/// The dumps of a game directory listing, as plain entries.
pub open spec fn game_files(entries: Seq<GameEntry>) -> Seq<Entry> {
    entries.map_values(
        |e: GameEntry|
            match e {
                GameEntry::File(n) => Entry::File(n),
                GameEntry::Dir(n, _) => Entry::Dir(n),
            },
    )
}

/// The index of the category titled `key`, if there is one.
pub open spec fn category_index(cats: Seq<CategoryView>, key: Seq<char>) -> Option<int>
    decreases cats.len(),
{
    if cats.len() == 0 {
        None
    } else if cats.last().0 == key {
        Some(cats.len() - 1)
    } else {
        category_index(cats.drop_last(), key)
    }
}

/// The categories with `key` mapped to `value`: the category so titled gets
/// the new characters, or a new category is added at the end.
pub open spec fn insert_category(
    cats: Seq<CategoryView>,
    key: Seq<char>,
    value: Seq<CharacterView>,
) -> Seq<CategoryView> {
    match category_index(cats, key) {
        Some(i) => cats.update(i, (key, value)),
        None => cats.push((key, value)),
    }
}

/// The categories after visiting a directory nested in a category: unless it
/// lies outside the amiibo root or holds no dump, it becomes a category of
/// its own.
pub open spec fn with_nested(
    cats: Seq<CategoryView>,
    dir: Seq<char>,
    entries: Seq<Entry>,
) -> Seq<CategoryView> {
    match category_title(dir) {
        None => cats,
        Some(title) => {
            let found = characters_of(dir, entries);
            if found.len() > 0 {
                insert_category(cats, title, found)
            } else {
                cats
            }
        },
    }
}

/// The categories after visiting, in order, the directories among the entries
/// of the category directory `dir`.
pub open spec fn nested_in(
    cats: Seq<CategoryView>,
    dir: Seq<char>,
    entries: Seq<CategoryEntry>,
) -> Seq<CategoryView>
    decreases entries.len(),
{
    if entries.len() == 0 {
        cats
    } else {
        let before = nested_in(cats, dir, entries.drop_last());
        match entries.last() {
            CategoryEntry::Dir(name, inner) => with_nested(before, join(dir, name@), inner@),
            CategoryEntry::File(_) => before,
        }
    }
}

/// The categories after visiting a category directory: unless it lies outside
/// the amiibo root, its nested directories are visited first, then it becomes
/// a category of its own if it holds a dump.
pub open spec fn with_category(
    cats: Seq<CategoryView>,
    dir: Seq<char>,
    entries: Seq<CategoryEntry>,
) -> Seq<CategoryView> {
    match category_title(dir) {
        None => cats,
        Some(title) => {
            let after = nested_in(cats, dir, entries);
            let found = characters_of(dir, category_files(entries));
            if found.len() > 0 {
                insert_category(after, title, found)
            } else {
                after
            }
        },
    }
}

/// The categories found by visiting, in order, the directories among the
/// entries of the game directory `dir`.
pub open spec fn categories_of(dir: Seq<char>, entries: Seq<GameEntry>) -> Seq<CategoryView>
    decreases entries.len(),
{
    if entries.len() == 0 {
        seq![]
    } else {
        let before = categories_of(dir, entries.drop_last());
        match entries.last() {
            GameEntry::Dir(name, inner) => with_category(before, join(dir, name@), inner@),
            GameEntry::File(_) => before,
        }
    }
}

/// The directory of the game named `game`: the name joined to the amiibo root.
pub open spec fn game_dir(game: Seq<char>) -> Seq<char> {
    join(amiibo_root(), game)
}

/// Whether no two categories have the same title and every category has a
/// character.
pub open spec fn distinct_titles(cats: Seq<CategoryView>) -> bool {
    &&& forall|i: int, j: int| 0 <= i < j < cats.len() ==> cats[i].0 != cats[j].0
    &&& forall|i: int| 0 <= i < cats.len() ==> #[trigger] cats[i].1.len() > 0
}

/// What a list of games is made of: each game's title and URL.
pub open spec fn game_list_view(v: Seq<Game>) -> Seq<CharacterView> {
    v.map_values(|g: Game| (g.name@, g.url@))
}

/// The amiibo root as characters.
fn amiibo_root_chars() -> (r: Vec<char>)
    ensures
        r@ == amiibo_root(),
{
    let r: Vec<char> = vec!['p', 'u', 'b', 'l', 'i', 'c', '/', 'a', 'm', 'i', 'i', 'b', 'o'];
    assert(r@ =~= amiibo_root());
    r
}

/// The path of the entry named `name` in the directory `dir`.
fn entry_path(dir: &Vec<char>, name: &String) -> (r: String)
    ensures
        r@ == join(dir@, name@),
{
    let n = chars_of(name.as_str());
    let p = path_join(dir, &n);
    string_of(&p)
}

/// The games of the catalogue, given the listing of the amiibo root: one for
/// each directory whose path has a file stem, titled and linked after that
/// stem, in listing order.
pub fn list_games(entries: &Vec<Entry>) -> (r: Vec<Game>)
    ensures
        game_list_view(r@) == games_of(entries@),
{
    let root = amiibo_root_chars();
    let mut r: Vec<Game> = Vec::new();
    let mut i: usize = 0;
    while i < entries.len()
        invariant
            i <= entries@.len(),
            root@ == amiibo_root(),
            game_list_view(r@) == games_of(entries@.take(i as int)),
        decreases entries@.len() - i,
    {
        assert(entries@.take(i + 1).drop_last() =~= entries@.take(i as int));
        assert(entries@.take(i + 1).last() == entries@[i as int]);
        match &entries[i] {
            Entry::Dir(name) => {
                let path = entry_path(&root, name);
                match Game::from_path(path.as_str()) {
                    Some(g) => {
                        r.push(g);
                    },
                    None => {},
                }
            },
            Entry::File(_) => {},
        }
        i = i + 1;
        assert(game_list_view(r@) =~= games_of(entries@.take(i as int)));
    }
    assert(entries@.take(entries@.len() as int) =~= entries@);
    r
}

/// The characters of the dumps among `entries` of the directory `dir`, as
/// [`characters_of`] says.
fn characters_in(dir: &Vec<char>, entries: &Vec<Entry>) -> (r: Vec<Character>)
    ensures
        characters_view(r@) == characters_of(dir@, entries@),
{
    let mut r: Vec<Character> = Vec::new();
    let mut i: usize = 0;
    while i < entries.len()
        invariant
            i <= entries@.len(),
            characters_view(r@) == characters_of(dir@, entries@.take(i as int)),
        decreases entries@.len() - i,
    {
        assert(entries@.take(i + 1).drop_last() =~= entries@.take(i as int));
        assert(entries@.take(i + 1).last() == entries@[i as int]);
        match &entries[i] {
            Entry::File(name) => {
                let path = entry_path(dir, name);
                match Character::from_path(path.as_str()) {
                    Some(c) => {
                        r.push(c);
                    },
                    None => {},
                }
            },
            Entry::Dir(_) => {},
        }
        i = i + 1;
        assert(characters_view(r@) =~= characters_of(dir@, entries@.take(i as int)));
    }
    assert(entries@.take(entries@.len() as int) =~= entries@);
    r
}

proof fn lemma_category_index(cats: Seq<CategoryView>, key: Seq<char>)
    ensures
        match category_index(cats, key) {
            Some(i) => 0 <= i < cats.len() && cats[i].0 == key,
            None => forall|j: int| 0 <= j < cats.len() ==> cats[j].0 != key,
        },
    decreases cats.len(),
{
    if cats.len() > 0 && cats.last().0 != key {
        lemma_category_index(cats.drop_last(), key);
        assert forall|j: int| 0 <= j < cats.len() - 1 implies cats[j] == cats.drop_last()[j] by {}
    }
}

/// Maps `key` to `value` among the categories, as [`insert_category`] says,
/// keeping the titles distinct.
fn insert_category_exec(
    cats: &mut Vec<(String, Vec<Character>)>,
    key: String,
    value: Vec<Character>,
)
    requires
        distinct_titles(categories_view(old(cats)@)),
        value@.len() > 0,
    ensures
        categories_view(final(cats)@) == insert_category(
            categories_view(old(cats)@),
            key@,
            characters_view(value@),
        ),
        distinct_titles(categories_view(final(cats)@)),
{
    let ghost before = categories_view(cats@);
    let mut k: usize = cats.len();
    assert(before.take(k as int) =~= before);
    while k > 0 && cats[k - 1].0 != key
        invariant
            k <= cats@.len(),
            cats@ == old(cats)@,
            before == categories_view(cats@),
            category_index(before, key@) == category_index(before.take(k as int), key@),
        decreases k,
    {
        assert(before.take(k as int).drop_last() =~= before.take(k - 1));
        assert(before.take(k as int).last() == before[k - 1]);
        assert(before[k - 1].0 == cats@[k - 1].0@);
        k = k - 1;
    }
    proof {
        lemma_category_index(before, key@);
        if k > 0 {
            assert(before.take(k as int).last() == before[k - 1]);
            assert(before[k - 1].0 == cats@[k - 1].0@);
            assert(category_index(before, key@) == Some(k - 1));
        } else {
            assert(category_index(before.take(0), key@) is None);
        }
    }
    let ghost added = (key@, characters_view(value@));
    if k == 0 {
        cats.push((key, value));
        assert(categories_view(cats@) =~= before.push(added));
    } else {
        cats.set(k - 1, (key, value));
        assert(categories_view(cats@) =~= before.update(k - 1, added));
    }
}

/// Visits a directory nested in a category, as [`with_nested`] says: unless it
/// lies outside the amiibo root or holds no dump, it becomes a category of its
/// own.
pub fn collect_sub_directory2(cats: &mut Vec<(String, Vec<Character>)>, dir: &Vec<char>, entries: &Vec<Entry>)
    requires
        distinct_titles(categories_view(old(cats)@)),
    ensures
        categories_view(final(cats)@) == with_nested(categories_view(old(cats)@), dir@, entries@),
        distinct_titles(categories_view(final(cats)@)),
{
    match path_category_title(dir) {
        None => {},
        Some(title) => {
            let found = characters_in(dir, entries);
            if found.len() > 0 {
                insert_category_exec(cats, string_of(&title), found);
            }
        },
    }
}

/// Visits a category directory, as [`with_category`] says: its nested
/// directories first, then the directory itself. Only its own title and the
/// titles of its subdirectories can change; no category is left without
/// characters.
pub fn collect_sub_directory(
    cats: &mut Vec<(String, Vec<Character>)>,
    dir: &Vec<char>,
    entries: &Vec<CategoryEntry>,
)
    requires
        distinct_titles(categories_view(old(cats)@)),
    ensures
        categories_view(final(cats)@) == with_category(
            categories_view(old(cats)@),
            dir@,
            entries@,
        ),
        distinct_titles(categories_view(final(cats)@)),
        forall|k: Seq<char>|
            category_title(dir@) != Some(k) && (forall|i: int|
                0 <= i < entries@.len() ==> entry_title(dir@, #[trigger] entries@[i]) != Some(k))
                ==> #[trigger] lookup(categories_view(final(cats)@), k) == lookup(
                categories_view(old(cats)@),
                k,
            ),
{
    let ghost start = categories_view(cats@);
    proof {
        assert forall|k: Seq<char>|
            category_title(dir@) != Some(k) && (forall|i: int|
                0 <= i < entries@.len() ==> entry_title(dir@, #[trigger] entries@[i]) != Some(k))
                implies #[trigger] lookup(with_category(start, dir@, entries@), k) == lookup(
            start,
            k,
        ) by {
            law_category_keys(start, dir@, entries@, k);
        }
    }
    let title = match path_category_title(dir) {
        None => {
            return ;
        },
        Some(t) => t,
    };
    let ghost start = categories_view(cats@);
    let mut files: Vec<Entry> = Vec::new();
    let mut i: usize = 0;
    while i < entries.len()
        invariant
            i <= entries@.len(),
            distinct_titles(categories_view(cats@)),
            categories_view(cats@) == nested_in(start, dir@, entries@.take(i as int)),
            files@ == category_files(entries@.take(i as int)),
        decreases entries@.len() - i,
    {
        assert(entries@.take(i + 1).drop_last() =~= entries@.take(i as int));
        assert(entries@.take(i + 1).last() == entries@[i as int]);
        match &entries[i] {
            CategoryEntry::Dir(name, inner) => {
                let path = entry_path(dir, name);
                let pv = chars_of(path.as_str());
                collect_sub_directory2(cats, &pv, inner);
                files.push(Entry::Dir(name.clone()));
            },
            CategoryEntry::File(name) => {
                files.push(Entry::File(name.clone()));
            },
        }
        i = i + 1;
        assert(files@ =~= category_files(entries@.take(i as int)));
    }
    assert(entries@.take(entries@.len() as int) =~= entries@);
    let found = characters_in(dir, &files);
    if found.len() > 0 {
        insert_category_exec(cats, string_of(&title), found);
    }
}

/// The directory of the game named `game`, as [`game_dir`] says.
pub fn game_directory(game: &str) -> (r: String)
    ensures
        r@ == game_dir(game@),
{
    let root = amiibo_root_chars();
    string_of(&path_join(&root, &chars_of(game)))
}

/// The characters of the game named `game`, given the listing of its
/// directory: the dumps that lie directly in it, in listing order, and the
/// categories found in its directories, with distinct titles.
pub fn collect_game_amiibo(game: String, entries: &Vec<GameEntry>) -> (r: GameAmiibo)
    ensures
        r.game@ == game@,
        characters_view(r.basic@) == characters_of(game_dir(game@), game_files(entries@)),
        categories_view(r.categories@) == categories_of(game_dir(game@), entries@),
        distinct_titles(categories_view(r.categories@)),
{
    let root = amiibo_root_chars();
    let gv = chars_of(game.as_str());
    let dir = path_join(&root, &gv);
    let mut cats: Vec<(String, Vec<Character>)> = Vec::new();
    let mut files: Vec<Entry> = Vec::new();
    let mut i: usize = 0;
    assert(categories_view(cats@) =~= Seq::<CategoryView>::empty());
    while i < entries.len()
        invariant
            i <= entries@.len(),
            dir@ == game_dir(game@),
            distinct_titles(categories_view(cats@)),
            categories_view(cats@) == categories_of(dir@, entries@.take(i as int)),
            files@ == game_files(entries@.take(i as int)),
        decreases entries@.len() - i,
    {
        assert(entries@.take(i + 1).drop_last() =~= entries@.take(i as int));
        assert(entries@.take(i + 1).last() == entries@[i as int]);
        match &entries[i] {
            GameEntry::Dir(name, inner) => {
                let path = entry_path(&dir, name);
                let pv = chars_of(path.as_str());
                collect_sub_directory(&mut cats, &pv, inner);
                files.push(Entry::Dir(name.clone()));
            },
            GameEntry::File(name) => {
                files.push(Entry::File(name.clone()));
            },
        }
        i = i + 1;
        assert(files@ =~= game_files(entries@.take(i as int)));
    }
    assert(entries@.take(entries@.len() as int) =~= entries@);
    let basic = characters_in(&dir, &files);
    GameAmiibo { game, basic, categories: cats }
}

/// The characters of the category titled `key`, if there is one.
pub open spec fn lookup(cats: Seq<CategoryView>, key: Seq<char>) -> Option<Seq<CharacterView>> {
    match category_index(cats, key) {
        Some(i) => Some(cats[i].1),
        None => None,
    }
}

/// Whether every category has a character.
pub open spec fn nonempty_values(cats: Seq<CategoryView>) -> bool {
    forall|i: int| 0 <= i < cats.len() ==> #[trigger] cats[i].1.len() > 0
}

/// The title a category entry would give the directory it names, if any.
pub open spec fn entry_title(dir: Seq<char>, e: CategoryEntry) -> Option<Seq<char>> {
    match e {
        CategoryEntry::Dir(name, _) => category_title(join(dir, name@)),
        CategoryEntry::File(_) => None,
    }
}

proof fn lemma_index_by_titles(a: Seq<CategoryView>, b: Seq<CategoryView>, k: Seq<char>)
    requires
        a.len() == b.len(),
        forall|i: int| 0 <= i < a.len() ==> #[trigger] a[i].0 == b[i].0,
    ensures
        category_index(a, k) == category_index(b, k),
    decreases a.len(),
{
    if a.len() > 0 {
        assert(a.last().0 == b.last().0);
        assert forall|i: int| 0 <= i < a.len() - 1 implies #[trigger] a.drop_last()[i].0
            == b.drop_last()[i].0 by {
            assert(a.drop_last()[i] == a[i]);
            assert(b.drop_last()[i] == b[i]);
        }
        lemma_index_by_titles(a.drop_last(), b.drop_last(), k);
    }
}

proof fn lemma_insert_lookup(
    cats: Seq<CategoryView>,
    key: Seq<char>,
    value: Seq<CharacterView>,
    k: Seq<char>,
)
    requires
        k != key,
    ensures
        lookup(insert_category(cats, key, value), k) == lookup(cats, k),
        nonempty_values(cats) && value.len() > 0 ==> nonempty_values(
            insert_category(cats, key, value),
        ),
{
    lemma_category_index(cats, key);
    lemma_category_index(cats, k);
    let after = insert_category(cats, key, value);
    match category_index(cats, key) {
        Some(i) => {
            lemma_index_by_titles(after, cats, k);
        },
        None => {
            assert(after.drop_last() =~= cats);
        },
    }
}

proof fn lemma_nested_lookup(
    cats: Seq<CategoryView>,
    dir: Seq<char>,
    entries: Seq<CategoryEntry>,
    k: Seq<char>,
)
    requires
        forall|i: int| 0 <= i < entries.len() ==> entry_title(dir, #[trigger] entries[i]) != Some(k),
    ensures
        lookup(nested_in(cats, dir, entries), k) == lookup(cats, k),
    decreases entries.len(),
{
    if entries.len() > 0 {
        let before = nested_in(cats, dir, entries.drop_last());
        assert forall|i: int| 0 <= i < entries.drop_last().len() implies entry_title(
            dir,
            #[trigger] entries.drop_last()[i],
        ) != Some(k) by {
            assert(entries.drop_last()[i] == entries[i]);
        }
        lemma_nested_lookup(cats, dir, entries.drop_last(), k);
        assert(entry_title(dir, entries[entries.len() - 1]) != Some(k));
        match entries.last() {
            CategoryEntry::Dir(name, inner) => {
                let sub = join(dir, name@);
                match category_title(sub) {
                    Some(t) => {
                        let found = characters_of(sub, inner@);
                        if found.len() > 0 {
                            lemma_insert_lookup(before, t, found, k);
                        }
                    },
                    None => {},
                }
            },
            CategoryEntry::File(_) => {},
        }
    }
}

proof fn lemma_nested_nonempty(cats: Seq<CategoryView>, dir: Seq<char>, entries: Seq<CategoryEntry>)
    requires
        nonempty_values(cats),
    ensures
        nonempty_values(nested_in(cats, dir, entries)),
    decreases entries.len(),
{
    if entries.len() > 0 {
        let before = nested_in(cats, dir, entries.drop_last());
        lemma_nested_nonempty(cats, dir, entries.drop_last());
        match entries.last() {
            CategoryEntry::Dir(name, inner) => {
                let sub = join(dir, name@);
                match category_title(sub) {
                    Some(t) => {
                        let found = characters_of(sub, inner@);
                        if found.len() > 0 {
                            lemma_insert_lookup(before, t, found, t + seq![' ']);
                        }
                    },
                    None => {},
                }
            },
            CategoryEntry::File(_) => {},
        }
    }
}

/// Visiting a category directory touches only its own title and those of its
/// subdirectories: the characters kept under any other title are unchanged,
/// and, as no category without characters is ever added, every category
/// keeps at least one character.
pub proof fn law_category_keys(
    cats: Seq<CategoryView>,
    dir: Seq<char>,
    entries: Seq<CategoryEntry>,
    k: Seq<char>,
)
    ensures
        category_title(dir) != Some(k) && (forall|i: int|
            0 <= i < entries.len() ==> entry_title(dir, #[trigger] entries[i]) != Some(k))
            ==> lookup(with_category(cats, dir, entries), k) == lookup(cats, k),
        nonempty_values(cats) ==> nonempty_values(with_category(cats, dir, entries)),
{
    match category_title(dir) {
        Some(title) => {
            let after = nested_in(cats, dir, entries);
            let found = characters_of(dir, category_files(entries));
            if category_title(dir) != Some(k) && (forall|i: int|
                0 <= i < entries.len() ==> entry_title(dir, #[trigger] entries[i]) != Some(k)) {
                lemma_nested_lookup(cats, dir, entries, k);
                if found.len() > 0 {
                    lemma_insert_lookup(after, title, found, k);
                }
            }
            if nonempty_values(cats) {
                lemma_nested_nonempty(cats, dir, entries);
                if found.len() > 0 {
                    let other = title + seq![' '];
                    lemma_insert_lookup(after, title, found, other);
                }
            }
        },
        None => {},
    }
}

proof fn lemma_insert_same(cats: Seq<CategoryView>, key: Seq<char>, value: Seq<CharacterView>)
    ensures
        lookup(insert_category(cats, key, value), key) == Some(value),
{
    lemma_category_index(cats, key);
    let after = insert_category(cats, key, value);
    match category_index(cats, key) {
        Some(i) => {
            lemma_index_by_titles(after, cats, key);
        },
        None => {},
    }
}

proof fn lemma_nested_concat(
    cats: Seq<CategoryView>,
    dir: Seq<char>,
    a: Seq<CategoryEntry>,
    b: Seq<CategoryEntry>,
)
    ensures
        nested_in(cats, dir, a + b) == nested_in(nested_in(cats, dir, a), dir, b),
    decreases b.len(),
{
    if b.len() == 0 {
        assert(a + b =~= a);
    } else {
        assert((a + b).drop_last() =~= a + b.drop_last());
        assert((a + b).last() == b.last());
        lemma_nested_concat(cats, dir, a, b.drop_last());
    }
}

/// The category that a directory entry of a category directory would make:
/// the title and the characters of the directory it names, if it names one
/// below the amiibo root.
pub open spec fn nested_found(dir: Seq<char>, e: CategoryEntry) -> Option<(Seq<char>, Seq<CharacterView>)> {
    match e {
        CategoryEntry::Dir(name, inner) => match category_title(join(dir, name@)) {
            Some(t) => Some((t, characters_of(join(dir, name@), inner@))),
            None => None,
        },
        CategoryEntry::File(_) => None,
    }
}

/// Nested directories become categories of their own: when a category
/// directory below the root is visited, a directory among its entries that
/// holds a dump ends up as the category of its title with its own
/// characters, whether or not the visited directory holds dumps itself;
/// unless a later entry gives the same title, or the visited directory has
/// that title and dumps of its own.
pub proof fn law_nested_directory_kept(
    cats: Seq<CategoryView>,
    dir: Seq<char>,
    entries: Seq<CategoryEntry>,
    j: int,
    t: Seq<char>,
    found: Seq<CharacterView>,
)
    requires
        category_title(dir) is Some,
        0 <= j < entries.len(),
        nested_found(dir, entries[j]) == Some((t, found)),
        found.len() > 0,
        forall|i: int| j < i < entries.len() ==> entry_title(dir, #[trigger] entries[i]) != Some(t),
        category_title(dir) != Some(t) || characters_of(dir, category_files(entries)).len() == 0,
    ensures
        lookup(with_category(cats, dir, entries), t) == Some(found),
{
    let head = entries.take(j + 1);
    let tail = entries.skip(j + 1);
    assert(entries =~= head + tail);
    lemma_nested_concat(cats, dir, head, tail);
    assert(head.drop_last() =~= entries.take(j));
    assert(head.last() == entries[j]);
    let before = nested_in(cats, dir, entries.take(j));
    match entries[j] {
        CategoryEntry::Dir(name, inner) => {
            lemma_insert_same(before, t, found);
        },
        CategoryEntry::File(_) => {},
    }
    assert forall|i: int| 0 <= i < tail.len() implies entry_title(dir, #[trigger] tail[i]) != Some(t) by {
        assert(tail[i] == entries[i + j + 1]);
    }
    lemma_nested_lookup(nested_in(cats, dir, head), dir, tail, t);
    let d = category_title(dir).unwrap();
    let after = nested_in(cats, dir, entries);
    let own = characters_of(dir, category_files(entries));
    if own.len() > 0 {
        lemma_insert_lookup(after, d, own, t);
    }
}

} // verus!
