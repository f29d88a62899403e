use vstd::prelude::*;
use vstd::string::{StrSliceExecFns, StringExecFns};

use crate::text::{join_spec, split_char, split_char_spec, texts};
use crate::properties::{self, level_name_key, level_name_spec, set_entry, Entry, Properties};

verus! {

/// One world directory of the server.
pub struct World {
    id: String,
    pub is_active: bool,
}

impl View for World {
    type V = (Seq<char>, bool);

    /// The world's id and whether it is the active one.
    closed spec fn view(&self) -> (Seq<char>, bool) {
        (self.id@, self.is_active)
    }
}

impl World {
    /// The name of the world's directory.
    pub closed spec fn id_spec(&self) -> Seq<char> {
        self.id@
    }

    /// The name of the world's directory, which identifies it.
    pub fn id(&self) -> (r: String)
        ensures
            r@ == self.id_spec(),
    {
        self.id.clone()
    }
}

/// The id and activity of each world.
pub open spec fn world_views(v: Seq<World>) -> Seq<(Seq<char>, bool)> {
    v.map_values(|w: World| w@)
}

/// Why the worlds could not be listed or switched.
#[derive(Debug, Clone, PartialEq, Eq)]
pub enum WorldError {
    /// The worlds directory could not be read; holds the reason.
    ReadWorldDir(String),
    /// No world has this id.
    NoSuchWorld(String),
    /// The world with this id is already the active one.
    AlreadyActive(String),
    /// The properties naming the new active world could not be written.
    Switch(properties::Error),
    /// The server's properties could not be read.
    LoadServerProperties(properties::Error),
}

/// The worlds the server can run, and which one is active.
pub struct Worlds {
    worlds: Vec<World>,
    properties: Properties,
    current_world_name: String,
}

impl Worlds {
    /// Ids and activity of the worlds, in directory order.
    pub closed spec fn list_spec(&self) -> Seq<(Seq<char>, bool)> {
        world_views(self.worlds@)
    }

    /// The name of the active world.
    pub closed spec fn current_spec(&self) -> Seq<char> {
        self.current_world_name@
    }

    /// The server's properties.
    pub closed spec fn properties_spec(&self) -> Seq<Entry> {
        self.properties@
    }

    /// The place of the server's properties file.
    pub closed spec fn properties_path(&self) -> Seq<char> {
        self.properties.path_spec()
    }

    /// The worlds found as the directories `directories` (their names, in the
    /// order read), the active one being the properties' level name.
    pub fn new(properties: Properties, directories: Vec<String>) -> (r: Worlds)
        ensures
            r.current_spec() == level_name_spec(properties@),
            r.properties_spec() == properties@,
            r.properties_path() == properties.path_spec(),
            r.list_spec() == directories@.map_values(
                |d: String| (d@, d@ == level_name_spec(properties@)),
            ),
    {
        let current_world_name = properties.level_name();
        let mut worlds: Vec<World> = Vec::new();
        let mut i: usize = 0;
        while i < directories.len()
            invariant
                i <= directories@.len(),
                current_world_name@ == level_name_spec(properties@),
                world_views(worlds@) == directories@.subrange(0, i as int).map_values(
                    |d: String| (d@, d@ == level_name_spec(properties@)),
                ),
            decreases directories@.len() - i,
        {
            let id = directories[i].clone();
            let is_active = id == current_world_name;
            let world = World { id, is_active };
            let ghost before = worlds@;
            worlds.push(world);
            assert(world_views(worlds@) =~= world_views(before).push(world@));
            assert(directories@.subrange(0, i + 1).map_values(
                |d: String| (d@, d@ == level_name_spec(properties@)),
            ) =~= directories@.subrange(0, i as int).map_values(
                |d: String| (d@, d@ == level_name_spec(properties@)),
            ).push((directories@[i as int]@, directories@[i as int]@ == level_name_spec(properties@))));
            i = i + 1;
        }
        assert(directories@.subrange(0, i as int) =~= directories@);
        Worlds { worlds, properties, current_world_name }
    }

    /// The worlds, in directory order.
    pub fn list(&self) -> (r: &Vec<World>)
        ensures
            world_views(r@) == self.list_spec(),
    {
        &self.worlds
    }

    /// Makes the world `world_name` the active one: it must not be active
    /// already and must exist. Gives that world and the properties that name
    /// it, which are to be written to the properties file.
    pub fn switch(self, world_name: String) -> (r: Result<(World, Properties), WorldError>)
        ensures
            world_name@ == self.current_spec() ==> r == Err::<(World, Properties), _>(
                WorldError::AlreadyActive(world_name),
            ),
            world_name@ != self.current_spec() && (forall|i: int|
                0 <= i < self.list_spec().len() ==> #[trigger] self.list_spec()[i].0
                    != world_name@) ==> r == Err::<(World, Properties), _>(
                WorldError::NoSuchWorld(world_name),
            ),
            r is Ok ==> world_name@ != self.current_spec() && ({
                let (w, p) = r->Ok_0;
                &&& exists|i: int|
                    0 <= i < self.list_spec().len() && #[trigger] self.list_spec()[i] == w@
                        && w.id_spec() == world_name@ && forall|k: int|
                        0 <= k < i ==> #[trigger] self.list_spec()[k].0 != world_name@
                &&& p@ == set_entry(self.properties_spec(), level_name_key(), world_name@)
                &&& level_name_spec(p@) == world_name@
                &&& p.path_spec() == self.properties_path()
            }),
            r is Err ==> (r->Err_0 is AlreadyActive || r->Err_0 is NoSuchWorld),
    {
        if self.current_world_name == world_name {
            return Err(WorldError::AlreadyActive(world_name));
        }
        let Worlds { mut worlds, properties, current_world_name: _ } = self;
        let ghost views = world_views(worlds@);
        let n = worlds.len();
        let mut i: usize = 0;
        while i < n
            invariant
                n == worlds@.len(),
                views == world_views(worlds@),
                views == self.list_spec(),
                properties@ == self.properties_spec(),
                properties.path_spec() == self.properties_path(),
                world_name@ != self.current_spec(),
                i <= n,
                forall|k: int| 0 <= k < i ==> #[trigger] views[k].0 != world_name@,
            decreases n - i,
        {
            if worlds[i].id == world_name {
                let world = worlds.remove(i);
                assert(views[i as int] == world@);
                assert(views[i as int].0 == world_name@);
                let properties = properties.with_level_name(world_name);
                return Ok((world, properties));
            }
            assert(views[i as int].0 == worlds@[i as int].id_spec());
            i = i + 1;
        }
        Err(WorldError::NoSuchWorld(world_name))
    }
}

/// What `char::to_uppercase` gives for `c`: its uppercase mapping, one or
/// more characters.
pub uninterp spec fn upper_of(c: char) -> Seq<char>;

/// Relies on `char::to_uppercase`: the uppercase mapping of `c`, which
/// depends on `c` alone.
#[verifier::external_body]
fn uppercase(c: char) -> (r: String)
    ensures
        r@ == upper_of(c),
{
    c.to_uppercase().collect()
}

/// `word` with its first character replaced by `upper_first`.
pub open spec fn capitalized(upper_first: Seq<char>, word: Seq<char>) -> Seq<char> {
    upper_first + word.drop_first()
}

/// A word with its first character in upper case.
pub open spec fn title_case_spec(word: Seq<char>) -> Seq<char> {
    if word.len() == 0 {
        word
    } else {
        capitalized(upper_of(word[0]), word)
    }
}

/// Puts `upper_first`, the uppercase form of the first character of the
/// non-empty `word`, in place of that character.
pub fn capitalize(upper_first: String, word: &str) -> (r: String)
    requires
        word@.len() > 0,
    ensures
        r@ == capitalized(upper_first@, word@),
{
    let n = word.unicode_len();
    let mut out = upper_first;
    out.append(word.substring_char(1, n));
    out
}

/// `word` with its first character in upper case.
pub fn title_case_word(word: &str) -> (r: String)
    ensures
        r@ == title_case_spec(word@),
{
    if word.unicode_len() == 0 {
        word.to_owned()
    } else {
        capitalize(uppercase(word.get_char(0)), word)
    }
}

/// The display name of a world id: its `_`-separated words, each with an
/// uppercase first character, joined by spaces.
pub open spec fn display_name(id: Seq<char>) -> Seq<char> {
    join_spec(split_char_spec(id, '_').map_values(|w: Seq<char>| title_case_spec(w)), seq![' '])
}

/// The display name of a world id, such as `My World` for `my_world`.
pub fn id_to_name(id: &str) -> (r: String)
    ensures
        r@ == display_name(id@),
{
    let words = split_char(id, '_');
    let ghost titled = texts(words@).map_values(|w: Seq<char>| title_case_spec(w));
    let mut out = String::new();
    let mut i: usize = 0;
    while i < words.len()
        invariant
            titled == texts(words@).map_values(|w: Seq<char>| title_case_spec(w)),
            i <= words@.len(),
            out@ == join_spec(titled.subrange(0, i as int), seq![' ']),
        decreases words@.len() - i,
    {
        let word = title_case_word(words[i].as_str());
        proof {
            reveal_strlit(" ");
            assert(titled.subrange(0, i + 1).drop_last() =~= titled.subrange(0, i as int));
            assert(titled[i as int] == word@);
        }
        if i > 0 {
            out.append(" ");
        }
        out.append(word.as_str());
        proof {
            if i == 0 {
                assert(out@ =~= join_spec(titled.subrange(0, 1), seq![' ']));
            } else {
                assert(out@ =~= join_spec(titled.subrange(0, i + 1), seq![' ']));
            }
        }
        i = i + 1;
    }
    assert(titled.subrange(0, i as int) =~= titled);
    out
}

} // verus!
