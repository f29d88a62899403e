use vstd::prelude::*;
use vstd::string::{StrSliceExecFns, StringExecFns};

use crate::text::{find_char, find_char_from, parse_u16, trim, trim_spec, u16_spec};

verus! {

/// Why the server's properties could not be read, used or written.
#[derive(Debug, Clone, PartialEq, Eq)]
pub enum Error {
    /// The file could not be opened; holds the reason.
    Open(String),
    /// A line could not be read; holds the reason.
    Read(String),
    /// The updated file could not be written; holds the reason.
    Write(String),
    /// The line with this index (from 0) is neither a comment nor `key=value`.
    MalformedLine(usize),
    /// The remote-console port is missing or no number below 65536.
    InvalidRconPort,
    /// The remote-console password is missing.
    MissingRconPassword,
}

/// A key and its value, as text.
pub type Entry = (Seq<char>, Seq<char>);

/// The value of the first entry of `e` under `key`.
pub open spec fn lookup(e: Seq<Entry>, key: Seq<char>) -> Option<Seq<char>>
    decreases e.len(),
{
    if e.len() == 0 {
        None
    } else if e[0].0 == key {
        Some(e[0].1)
    } else {
        lookup(e.drop_first(), key)
    }
}

/// `e` with `key` set to `value`: the first entry under `key` takes the new
/// value in place; without one, the entry is added at the end.
pub open spec fn set_entry(e: Seq<Entry>, key: Seq<char>, value: Seq<char>) -> Seq<Entry>
    decreases e.len(),
{
    if e.len() == 0 {
        seq![(key, value)]
    } else if e[0].0 == key {
        e.update(0, (key, value))
    } else {
        seq![e[0]] + set_entry(e.drop_first(), key, value)
    }
}

/// After setting `key`, looking it up gives the new value, and every other key
/// keeps its value.
pub proof fn lemma_lookup_set_entry(e: Seq<Entry>, key: Seq<char>, value: Seq<char>, other: Seq<char>)
    ensures
        lookup(set_entry(e, key, value), key) == Some(value),
        other != key ==> lookup(set_entry(e, key, value), other) == lookup(e, other),
    decreases e.len(),
{
    let s = set_entry(e, key, value);
    if e.len() == 0 {
        assert(s[0] == (key, value));
        assert(s.drop_first() =~= Seq::<Entry>::empty());
    } else if e[0].0 == key {
        assert(s[0] == (key, value));
        assert(s.drop_first() =~= e.drop_first());
    } else {
        lemma_lookup_set_entry(e.drop_first(), key, value, other);
        assert(s[0] == e[0]);
        assert(s.drop_first() =~= set_entry(e.drop_first(), key, value));
        if other != key && e[0].0 != other {
            assert(lookup(s, other) == lookup(s.drop_first(), other));
            assert(lookup(e, other) == lookup(e.drop_first(), other));
        }
    }
}

/// The entries a file with `lines` holds, read from line `i` on into `acc`:
/// every line is trimmed; lines starting with `#` are comments; every other
/// line is cut at its first `=` into a key and a value, both trimmed, and a
/// later line overrides an earlier one with the same key.
pub open spec fn parse_from(lines: Seq<Seq<char>>, i: int, acc: Seq<Entry>) -> Result<Seq<Entry>, Error>
    decreases lines.len() - i,
{
    if i < 0 || i >= lines.len() {
        Ok(acc)
    } else {
        let line = trim_spec(lines[i]);
        if line.len() > 0 && line[0] == '#' {
            parse_from(lines, i + 1, acc)
        } else {
            match find_char_from(line, 0, '=') {
                None => Err(Error::MalformedLine(i as usize)),
                Some(j) => parse_from(
                    lines,
                    i + 1,
                    set_entry(
                        acc,
                        trim_spec(line.subrange(0, j)),
                        trim_spec(line.subrange(j + 1, line.len() as int)),
                    ),
                ),
            }
        }
    }
}

/// The text of a properties file holding `e`: one `key=value` line per entry.
pub open spec fn render_spec(e: Seq<Entry>) -> Seq<char>
    decreases e.len(),
{
    if e.len() == 0 {
        Seq::empty()
    } else {
        render_spec(e.drop_last()) + e.last().0 + seq!['='] + e.last().1 + seq!['\n']
    }
}

/// The texts of a vector of text pairs.
pub open spec fn entries_of(v: Seq<(String, String)>) -> Seq<Entry> {
    v.map_values(|p: (String, String)| (p.0@, p.1@))
}

/// The server's properties: text entries in the order they first appeared,
/// and the place of the file they came from.
pub struct Properties {
    entries: Vec<(String, String)>,
    path: String,
}

/// What the remote-console client needs of the properties.
pub struct RconProperties {
    pub port: u16,
    pub password: String,
}

/// The key of the active world's name.
pub open spec fn level_name_key() -> Seq<char> {
    "level-name"@
}

/// The key of the remote-console port.
pub open spec fn rcon_port_key() -> Seq<char> {
    "rcon.port"@
}

/// The key of the remote-console password.
pub open spec fn rcon_password_key() -> Seq<char> {
    "rcon.password"@
}

/// The active world's name: the `level-name` entry, `world` without one.
pub open spec fn level_name_spec(e: Seq<Entry>) -> Seq<char> {
    match lookup(e, level_name_key()) {
        Some(v) => v,
        None => "world"@,
    }
}

impl View for Properties {
    type V = Seq<Entry>;

    closed spec fn view(&self) -> Seq<Entry> {
        entries_of(self.entries@)
    }
}

impl Properties {
    /// Where the file lives.
    pub closed spec fn path_spec(&self) -> Seq<char> {
        self.path@
    }

    /// Reads the lines of the file found at `path`.
    pub fn parse(path: String, lines: Vec<String>) -> (r: Result<Properties, Error>)
        ensures
            r is Ok <==> parse_from(lines@.map_values(|l: String| l@), 0, Seq::empty()) is Ok,
            r is Ok ==> Ok::<_, Error>(r->Ok_0@) == parse_from(
                lines@.map_values(|l: String| l@),
                0,
                Seq::empty(),
            ) && r->Ok_0.path_spec() == path@,
            r is Err ==> r->Err_0 == parse_from(
                lines@.map_values(|l: String| l@),
                0,
                Seq::empty(),
            )->Err_0,
    {
        let ghost all = lines@.map_values(|l: String| l@);
        let mut props = Properties { entries: Vec::new(), path };
        let mut i: usize = 0;
        assert(props@ =~= Seq::<Entry>::empty());
        while i < lines.len()
            invariant
                all == lines@.map_values(|l: String| l@),
                i <= lines@.len(),
                props.path@ == path@,
                parse_from(all, 0, Seq::empty()) == parse_from(all, i as int, props@),
            decreases lines@.len() - i,
        {
            let line = trim(lines[i].as_str());
            assert(line@ == trim_spec(all[i as int]));
            let comment = line.as_str().unicode_len() > 0 && line.as_str().get_char(0) == '#';
            if !comment {
                match find_char(line.as_str(), '=') {
                    None => return Err(Error::MalformedLine(i)),
                    Some(j) => {
                        let n = line.as_str().unicode_len();
                        let key = trim(line.as_str().substring_char(0, j));
                        let value = trim(line.as_str().substring_char(j + 1, n));
                        props.set(key, value);
                    },
                }
            }
            i = i + 1;
        }
        Ok(props)
    }

    /// Sets `key` to `value`, in place when the key is there already.
    fn set(&mut self, key: String, value: String)
        ensures
            final(self)@ == set_entry(old(self)@, key@, value@),
            final(self).path_spec() == old(self).path_spec(),
    {
        let ghost start = self@;
        let ghost place = self.path_spec();
        let n = self.entries.len();
        let mut i: usize = 0;
        let mut found = false;
        while i < n && !found
            invariant
                n == self.entries@.len(),
                i <= n,
                self@ == start,
                self.path_spec() == place,
                found ==> i < n && start[i as int].0 == key@,
                forall|k: int| 0 <= k < i ==> #[trigger] start[k].0 != key@,
            decreases (n - i) + (if found { 0int } else { 1int }),
        {
            if self.entries[i].0 == key {
                found = true;
            } else {
                i = i + 1;
            }
        }
        proof {
            lemma_set_entry_at(start, key@, value@, i as int);
        }
        if found {
            let _ = self.entries.remove(i);
            self.entries.insert(i, (key, value));
            assert(self@ =~= start.update(i as int, (key@, value@)));
        } else {
            self.entries.push((key, value));
            assert(self@ =~= start.push((key@, value@)));
        }
    }

    /// The value under `key`.
    fn get(&self, key: &String) -> (r: Option<&String>)
        ensures
            r matches Some(v) ==> lookup(self@, key@) == Some(v@),
            r is None ==> lookup(self@, key@) is None,
    {
        let n = self.entries.len();
        let mut i: usize = 0;
        assert(self@.subrange(0, n as int) =~= self@);
        while i < n
            invariant
                n == self.entries@.len(),
                i <= n,
                lookup(self@, key@) == lookup(self@.subrange(i as int, n as int), key@),
            decreases n - i,
        {
            assert(self@.subrange(i as int, n as int).drop_first() =~= self@.subrange(i + 1, n as int));
            if self.entries[i].0 == *key {
                return Some(&self.entries[i].1);
            }
            i = i + 1;
        }
        None
    }

    /// The remote-console port and password.
    pub fn rcon_properties(&self) -> (r: Result<RconProperties, Error>)
        ensures
            match (lookup(self@, rcon_port_key()), lookup(self@, rcon_password_key())) {
                (None, _) => r == Err::<RconProperties, _>(Error::InvalidRconPort),
                (Some(p), _) if u16_spec(p) is None => r == Err::<RconProperties, _>(
                    Error::InvalidRconPort,
                ),
                (Some(_), None) => r == Err::<RconProperties, _>(Error::MissingRconPassword),
                (Some(p), Some(w)) => r is Ok && r->Ok_0.port == u16_spec(p)->Some_0
                    && r->Ok_0.password@ == w,
            },
    {
        let port_key = String::from_str("rcon.port");
        let port = match self.get(&port_key) {
            None => return Err(Error::InvalidRconPort),
            Some(text) => match parse_u16(text.as_str()) {
                None => return Err(Error::InvalidRconPort),
                Some(port) => port,
            },
        };
        let password_key = String::from_str("rcon.password");
        match self.get(&password_key) {
            None => Err(Error::MissingRconPassword),
            Some(password) => Ok(RconProperties { port, password: password.clone() }),
        }
    }

    /// The name of the active world.
    pub fn level_name(&self) -> (r: String)
        ensures
            r@ == level_name_spec(self@),
    {
        let key = String::from_str("level-name");
        match self.get(&key) {
            Some(name) => name.clone(),
            None => String::from_str("world"),
        }
    }

    /// Makes `world_name` the active world; the file is to be written again
    /// afterwards, with the text of `render`.
    pub fn with_level_name(self, world_name: String) -> (r: Properties)
        ensures
            r@ == set_entry(self@, level_name_key(), world_name@),
            level_name_spec(r@) == world_name@,
            r.path_spec() == self.path_spec(),
    {
        let mut props = self;
        props.set(String::from_str("level-name"), world_name);
        proof {
            lemma_lookup_set_entry(self@, level_name_key(), world_name@, level_name_key());
        }
        props
    }

    /// Where the file lives.
    pub fn path(&self) -> (r: &String)
        ensures
            r@ == self.path_spec(),
    {
        &self.path
    }

    /// The text of the file: one `key=value` line per entry, in order.
    pub fn render(&self) -> (r: String)
        ensures
            r@ == render_spec(self@),
    {
        let mut out = String::new();
        let n = self.entries.len();
        let mut i: usize = 0;
        while i < n
            invariant
                n == self.entries@.len(),
                i <= n,
                out@ == render_spec(self@.subrange(0, i as int)),
            decreases n - i,
        {
            let ghost before = out@;
            out.append(self.entries[i].0.as_str());
            out.append("=");
            out.append(self.entries[i].1.as_str());
            out.append("\n");
            proof {
                let e = self@.subrange(0, i + 1);
                assert(e.drop_last() =~= self@.subrange(0, i as int));
                reveal_strlit("=");
                reveal_strlit("\n");
                assert(out@ =~= render_spec(e));
            }
            i = i + 1;
        }
        assert(self@.subrange(0, n as int) =~= self@);
        out
    }
}

/// Setting a key whose first entry stands at `i` (or that is absent, with
/// `i` the length) replaces that entry or adds one at the end.
proof fn lemma_set_entry_at(e: Seq<Entry>, key: Seq<char>, value: Seq<char>, i: int)
    requires
        0 <= i <= e.len(),
        forall|k: int| 0 <= k < i ==> #[trigger] e[k].0 != key,
        i < e.len() ==> e[i].0 == key,
    ensures
        i < e.len() ==> set_entry(e, key, value) == e.update(i, (key, value)),
        i == e.len() ==> set_entry(e, key, value) == e.push((key, value)),
    decreases e.len(),
{
    if e.len() > 0 && i > 0 {
        let rest = e.drop_first();
        assert forall|k: int| 0 <= k < i - 1 implies #[trigger] rest[k].0 != key by {
            assert(rest[k] == e[k + 1]);
        }
        lemma_set_entry_at(rest, key, value, i - 1);
        if i < e.len() {
            assert(seq![e[0]] + rest.update(i - 1, (key, value)) =~= e.update(i, (key, value)));
        } else {
            assert(seq![e[0]] + rest.push((key, value)) =~= e.push((key, value)));
        }
    } else if e.len() == 0 {
        assert(seq![(key, value)] =~= e.push((key, value)));
    }
}

} // verus!
