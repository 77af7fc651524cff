//! Settings read from a `.env` file and the process environment.
use vstd::prelude::*;

use crate::text::{
    ascii_lower_codes, ascii_lower_equals, codes, find_char, index_of_char, lemma_find_char, opt_view, parse_unsigned,
    parse_unsigned_seq, seq_starts_with, split_char, split_seq, starts_with, str_equal, str_views,
    string_views, trim, trim_seq,
};

verus! {

/// A string-to-string map in which a later entry for a key replaces an earlier one.
pub struct EnvMap {
    entries: Vec<(String, String)>,
}

/// The map that a list of entries describes, later entries winning.
pub open spec fn entries_map(s: Seq<(String, String)>) -> Map<Seq<char>, Seq<char>>
    decreases s.len(),
{
    if s.len() == 0 {
        Map::empty()
    } else {
        entries_map(s.drop_last()).insert(s.last().0@, s.last().1@)
    }
}

impl View for EnvMap {
    type V = Map<Seq<char>, Seq<char>>;

    closed spec fn view(&self) -> Map<Seq<char>, Seq<char>> {
        entries_map(self.entries@)
    }
}

impl EnvMap {
    /// An empty map.
    pub fn new() -> (m: EnvMap)
        ensures
            m@ == Map::<Seq<char>, Seq<char>>::empty(),
    {
        EnvMap { entries: Vec::new() }
    }

    /// Sets `key` to `value`, replacing what it held.
    pub fn insert(&mut self, key: String, value: String)
        ensures
            final(self)@ == old(self)@.insert(key@, value@),
    {
        let ghost before = self.entries@;
        self.entries.push((key, value));
        assert(self.entries@.drop_last() =~= before);
    }

    /// The value of `key`, if it has one.
    pub fn get(&self, key: &str) -> (r: Option<&String>)
        ensures
            match r {
                Some(v) => self@.contains_key(key@) && v@ == self@[key@],
                None => !self@.contains_key(key@),
            },
    {
        let ghost s = self.entries@;
        let mut i: usize = self.entries.len();
        assert(s.take(i as int) =~= s);
        while i > 0
            invariant
                i <= s.len(),
                s == self.entries@,
                entries_map(s).contains_key(key@) == entries_map(s.take(i as int)).contains_key(
                    key@,
                ),
                entries_map(s).contains_key(key@) ==> entries_map(s)[key@] == entries_map(
                    s.take(i as int),
                )[key@],
            decreases i,
        {
            assert(s.take(i as int).drop_last() =~= s.take(i - 1));
            assert(s.take(i as int).last() == s[i - 1]);
            if str_equal(self.entries[i - 1].0.as_str(), key) {
                return Some(&self.entries[i - 1].1);
            }
            i -= 1;
        }
        assert(s.take(0) =~= Seq::<(String, String)>::empty());
        None
    }
}

/// The leading word that a `.env` line may carry.
pub open spec fn export_word() -> Seq<char> {
    seq!['e', 'x', 'p', 'o', 'r', 't', ' ']
}

/// A value without one pair of matching single or double quotes around it.
pub open spec fn unquote_seq(v: Seq<char>) -> Seq<char> {
    if v.len() >= 2 && (v[0] == '\'' || v[0] == '"') && v.last() == v[0] {
        v.subrange(1, v.len() - 1)
    } else {
        v
    }
}

/// The key and value that one `.env` line sets: blank lines and `#` comments set nothing,
/// an `export ` before the key is dropped, the key is what stands before the first `=`
/// (trimmed, and not empty), the value what stands after it (trimmed and unquoted).
pub open spec fn dotenv_line(line: Seq<char>) -> Option<(Seq<char>, Seq<char>)> {
    let t = trim_seq(line);
    if t.len() == 0 || t[0] == '#' {
        None
    } else {
        let body = if seq_starts_with(t, export_word()) {
            t.subrange(7, t.len() as int)
        } else {
            t
        };
        match find_char(body, '=') {
            None => None,
            Some(p) => {
                let key = trim_seq(body.subrange(0, p));
                if key.len() == 0 {
                    None
                } else {
                    Some((key, unquote_seq(trim_seq(body.subrange(p + 1, body.len() as int)))))
                }
            },
        }
    }
}

/// The map that a sequence of `.env` lines sets, later lines winning.
pub open spec fn dotenv_map(lines: Seq<Seq<char>>) -> Map<Seq<char>, Seq<char>>
    decreases lines.len(),
{
    if lines.len() == 0 {
        Map::empty()
    } else {
        let m = dotenv_map(lines.drop_last());
        match dotenv_line(lines.last()) {
            Some(kv) => m.insert(kv.0, kv.1),
            None => m,
        }
    }
}

/// Removes one pair of matching quotes around a value.
pub fn unquote_dotenv_value(value: &str) -> (r: String)
    ensures
        r@ == unquote_seq(value@),
{
    let n = value.unicode_len();
    if n >= 2 {
        let quote = value.get_char(0);
        if (quote == '\'' || quote == '"') && value.get_char(n - 1) == quote {
            return String::from_str(value.substring_char(1, n - 1));
        }
    }
    String::from_str(value)
}

/// The key and value that one `.env` line sets, if any.
pub fn parse_dotenv_line(line: &str) -> (r: Option<(String, String)>)
    ensures
        match dotenv_line(line@) {
            Some(kv) => r is Some && (r->0).0@ == kv.0 && (r->0).1@ == kv.1,
            None => r is None,
        },
{
    let t = trim(line);
    let n = t.unicode_len();
    if n == 0 || t.get_char(0) == '#' {
        return None;
    }
    let export = "export ";
    proof {
        reveal_strlit("export ");
        assert(export@ =~= export_word());
    }
    let body = if starts_with(t, export) {
        t.substring_char(7, n)
    } else {
        t
    };
    proof {
        lemma_find_char(body@, '=');
    }
    match index_of_char(body, '=') {
        None => None,
        Some(p) => {
            let key = trim(body.substring_char(0, p));
            if key.unicode_len() == 0 {
                return None;
            }
            let blen = body.unicode_len();
            let value = unquote_dotenv_value(trim(body.substring_char(p + 1, blen)));
            Some((String::from_str(key), value))
        },
    }
}

/// Everything that the lines of `content` set.
///
/// Lines are split at `\n`; a `\r` before it is white space that the line's trimming
/// removes, so this reads the same lines as `str::lines`.
pub fn parse_dotenv(content: &str) -> (r: EnvMap)
    ensures
        r@ == dotenv_map(split_seq(content@, '\n')),
{
    let lines = split_char(content, '\n');
    let ghost ls = str_views(lines@);
    let mut map = EnvMap::new();
    let mut i: usize = 0;
    assert(ls.take(0) =~= Seq::<Seq<char>>::empty());
    while i < lines.len()
        invariant
            i <= lines.len(),
            ls == str_views(lines@),
            map@ == dotenv_map(ls.take(i as int)),
        decreases lines.len() - i,
    {
        assert(ls.take(i + 1).drop_last() =~= ls.take(i as int));
        assert(ls.take(i + 1).last() == lines[i as int]@);
        match parse_dotenv_line(lines[i]) {
            Some(kv) => {
                let (k, v) = kv;
                map.insert(k, v);
            },
            None => {},
        }
        i += 1;
    }
    assert(ls.take(lines.len() as int) =~= ls);
    map
}

/// The values of a `.env` file together with the process environment, which wins.
pub struct Dotenv {
    values: EnvMap,
    environment: EnvMap,
}

impl Dotenv {
    /// The value that a key has: the environment's, trimmed and unquoted, or else the file's.
    pub open spec fn value_of(&self, key: Seq<char>) -> Option<Seq<char>> {
        if self.environment_map().contains_key(key) {
            Some(unquote_seq(trim_seq(self.environment_map()[key])))
        } else if self.file_map().contains_key(key) {
            Some(self.file_map()[key])
        } else {
            None
        }
    }

    pub closed spec fn file_map(&self) -> Map<Seq<char>, Seq<char>> {
        self.values@
    }

    pub closed spec fn environment_map(&self) -> Map<Seq<char>, Seq<char>> {
        self.environment@
    }

    /// The values of a `.env` file and of the process environment.
    pub fn new(values: EnvMap, environment: EnvMap) -> (d: Dotenv)
        ensures
            d.file_map() == values@,
            d.environment_map() == environment@,
    {
        Dotenv { values, environment }
    }

    /// No file and no environment.
    pub fn empty() -> (d: Dotenv)
        ensures
            d.file_map() == Map::<Seq<char>, Seq<char>>::empty(),
            d.environment_map() == Map::<Seq<char>, Seq<char>>::empty(),
    {
        Dotenv { values: EnvMap::new(), environment: EnvMap::new() }
    }

    /// The value of `key`.
    pub fn get(&self, key: &str) -> (r: Option<String>)
        ensures
            match self.value_of(key@) {
                Some(v) => r is Some && r->0@ == v,
                None => r is None,
            },
    {
        match self.environment.get(key) {
            Some(v) => Some(unquote_dotenv_value(trim(v.as_str()))),
            None => match self.values.get(key) {
                Some(v) => Some(v.clone()),
                None => None,
            },
        }
    }

    /// The value of `key` read as a `u16`, or `default` where it is missing or not one.
    pub fn parse_u16(&self, key: &str, default: u16) -> (r: u16)
        ensures
            r == parsed_or(self.value_of(key@), u16::MAX as nat, default as nat),
    {
        match self.get(key) {
            Some(v) => match parse_unsigned(v.as_str(), u16::MAX as u64) {
                Some(n) => n as u16,
                None => default,
            },
            None => default,
        }
    }

    /// The value of `key` read as a `u64`, or `default` where it is missing or not one.
    pub fn parse_u64(&self, key: &str, default: u64) -> (r: u64)
        ensures
            r == parsed_or(self.value_of(key@), u64::MAX as nat, default as nat),
    {
        match self.get(key) {
            Some(v) => match parse_unsigned(v.as_str(), u64::MAX) {
                Some(n) => n,
                None => default,
            },
            None => default,
        }
    }

    /// The value of `key` read as a flag, or `default` where it is missing or not one.
    pub fn parse_bool(&self, key: &str, default: bool) -> (r: bool)
        ensures
            r == flag_or(self.value_of(key@), default),
    {
        match self.get(key) {
            Some(v) => {
                let s = trim(v.as_str());
                let t = "true";
                let one = "1";
                let yes = "yes";
                let on = "on";
                let f = "false";
                let zero = "0";
                let no = "no";
                let off = "off";
                proof {
                    reveal_strlit("true");
                    reveal_strlit("1");
                    reveal_strlit("yes");
                    reveal_strlit("on");
                    reveal_strlit("false");
                    reveal_strlit("0");
                    reveal_strlit("no");
                    reveal_strlit("off");
                    assert(codes(t@) =~= seq![116u32, 114, 117, 101]);
                    assert(codes(one@) =~= seq![49u32]);
                    assert(codes(yes@) =~= seq![121u32, 101, 115]);
                    assert(codes(on@) =~= seq![111u32, 110]);
                    assert(codes(f@) =~= seq![102u32, 97, 108, 115, 101]);
                    assert(codes(zero@) =~= seq![48u32]);
                    assert(codes(no@) =~= seq![110u32, 111]);
                    assert(codes(off@) =~= seq![111u32, 102, 102]);
                }
                if ascii_lower_equals(s, t) || ascii_lower_equals(s, one) || ascii_lower_equals(
                    s,
                    yes,
                ) || ascii_lower_equals(s, on) {
                    true
                } else if ascii_lower_equals(s, f) || ascii_lower_equals(s, zero)
                    || ascii_lower_equals(s, no) || ascii_lower_equals(s, off) {
                    false
                } else {
                    default
                }
            },
            None => default,
        }
    }
}

/// The number that a value writes, if it is a decimal no larger than `max`, else `default`.
pub open spec fn parsed_or(v: Option<Seq<char>>, max: nat, default: nat) -> nat {
    match v {
        Some(s) => match parse_unsigned_seq(s, max) {
            Some(n) => n,
            None => default,
        },
        None => default,
    }
}

/// The flag that a value names once trimmed and lower-cased: `true`, `1`, `yes` and `on`
/// are set, `false`, `0`, `no` and `off` are unset.
///
/// No character outside ASCII lower-cases to a letter of these words, so ASCII
/// lower-casing reads them as full lower-casing does.
pub open spec fn flag_word(v: Seq<char>) -> Option<bool> {
    let l = ascii_lower_codes(trim_seq(v));
    if l == seq![116u32, 114, 117, 101] || l == seq![49u32] || l == seq![121u32, 101, 115] || l
        == seq![111u32, 110] {
        Some(true)
    } else if l == seq![102u32, 97, 108, 115, 101] || l == seq![48u32] || l == seq![110u32, 111]
        || l == seq![111u32, 102, 102] {
        Some(false)
    } else {
        None
    }
}

/// The flag that a value names, or `default`.
pub open spec fn flag_or(v: Option<Seq<char>>, default: bool) -> bool {
    match v {
        Some(s) => match flag_word(s) {
            Some(b) => b,
            None => default,
        },
        None => default,
    }
}

/// A value, or `default` where it is missing.
pub open spec fn value_or(v: Option<Seq<char>>, default: Seq<char>) -> Seq<char> {
    match v {
        Some(s) => s,
        None => default,
    }
}

/// `None` for a missing or blank value.
pub open spec fn blank_to_none(v: Option<Seq<char>>) -> Option<Seq<char>> {
    match v {
        Some(s) => if trim_seq(s).len() == 0 {
            None
        } else {
            Some(s)
        },
        None => None,
    }
}

/// Drops a value that is empty once trimmed.
pub fn empty_to_none(value: Option<String>) -> (r: Option<String>)
    ensures
        match blank_to_none(opt_view(value)) {
            Some(s) => r is Some && r->0@ == s,
            None => r is None,
        },
{
    match value {
        Some(item) => {
            if trim(item.as_str()).unicode_len() == 0 {
                None
            } else {
                Some(item)
            }
        },
        None => None,
    }
}

/// The names that a comma-separated list gives, each trimmed, blank ones left out.
pub open spec fn list_names(fields: Seq<Seq<char>>) -> Seq<Seq<char>>
    decreases fields.len(),
{
    if fields.len() == 0 {
        Seq::empty()
    } else {
        let rest = list_names(fields.drop_last());
        let name = trim_seq(fields.last());
        if name.len() == 0 {
            rest
        } else {
            rest.push(name)
        }
    }
}

/// The pool's bot names when the environment names none.
pub open spec fn default_pool_bots() -> Seq<char> {
    seq![
        'w', 'a', 'r', 'm', 'b', 'o', 't', '_', '1', ',', 'w', 'a', 'r', 'm', 'b', 'o', 't', '_',
        '2', ',', 'w', 'a', 'r', 'm', 'b', 'o', 't', '_', '3'
    ]
}

/// The names in a comma-separated list, trimmed, blank ones left out.
pub fn comma_names(list: &str) -> (r: Vec<String>)
    ensures
        string_views(r@) == list_names(split_seq(list@, ',')),
{
    let fields = split_char(list, ',');
    let ghost fs = str_views(fields@);
    let mut names: Vec<String> = Vec::new();
    let mut i: usize = 0;
    assert(fs.take(0) =~= Seq::<Seq<char>>::empty());
    assert(string_views(names@) =~= Seq::<Seq<char>>::empty());
    while i < fields.len()
        invariant
            i <= fields.len(),
            fs == str_views(fields@),
            string_views(names@) == list_names(fs.take(i as int)),
        decreases fields.len() - i,
    {
        assert(fs.take(i + 1).drop_last() =~= fs.take(i as int));
        assert(fs.take(i + 1).last() == fields[i as int]@);
        let name = trim(fields[i]);
        if name.unicode_len() != 0 {
            let ghost before = names@;
            names.push(String::from_str(name));
            assert(string_views(names@) =~= string_views(before).push(name@));
        }
        i += 1;
    }
    assert(fs.take(fields.len() as int) =~= fs);
    names
}

/// The pool's bot names: `POOL_BOTS`, or three warm bots by default.
pub fn parse_pool_bots(dotenv: &Dotenv) -> (r: Vec<String>)
    ensures
        string_views(r@) == list_names(
            split_seq(
                match dotenv.value_of(pool_bots_key()) {
                    Some(v) => v,
                    None => default_pool_bots(),
                },
                ',',
            ),
        ),
{
    let key = "POOL_BOTS";
    proof {
        reveal_strlit("POOL_BOTS");
        assert(key@ =~= pool_bots_key());
    }
    match dotenv.get(key) {
        Some(v) => comma_names(v.as_str()),
        None => {
            let d = "warmbot_1,warmbot_2,warmbot_3";
            proof {
                reveal_strlit("warmbot_1,warmbot_2,warmbot_3");
                assert(d@ =~= default_pool_bots());
            }
            comma_names(d)
        },
    }
}

pub open spec fn pool_bots_key() -> Seq<char> {
    seq!['P', 'O', 'O', 'L', '_', 'B', 'O', 'T', 'S']
}

/// The value of `key`, or `default` where it is missing.
fn get_or(dotenv: &Dotenv, key: &str, default: &str) -> (r: String)
    ensures
        r@ == value_or(dotenv.value_of(key@), default@),
{
    match dotenv.get(key) {
        Some(v) => v,
        None => String::from_str(default),
    }
}

/// The sidecar's settings.
#[derive(Clone, Debug)]
pub struct Settings {
    pub port: u16,
    pub broker_host: String,
    pub broker_port: u16,
    pub broker_username: Option<String>,
    pub broker_password: Option<String>,
    pub broker_ssl: bool,
    pub bots_path: String,
    pub pool_bots: Vec<String>,
    pub command_timeout_secs: u64,
    pub heartbeat_timeout_secs: u64,
    pub r2_enabled: bool,
    pub r2_bucket: String,
    pub r2_endpoint_url: String,
    pub r2_access_key_id: String,
    pub r2_secret_access_key: String,
    pub r2_prefix: String,
}

impl Settings {
    /// Reads every setting from `dotenv`, with its default where it is missing or unreadable.
    pub fn load(dotenv: &Dotenv) -> (s: Settings)
        ensures
            s.port == parsed_or(dotenv.value_of("RS_ORCHESTRATOR_PORT"@), u16::MAX as nat, 8001),
            s.broker_host@ == value_or(dotenv.value_of("BROKER_HOST"@), "localhost"@),
            s.broker_port == parsed_or(dotenv.value_of("BROKER_PORT"@), u16::MAX as nat, 1883),
            opt_view(s.broker_username) == blank_to_none(dotenv.value_of("BROKER_USERNAME"@)),
            opt_view(s.broker_password) == blank_to_none(dotenv.value_of("BROKER_PASSWORD"@)),
            s.broker_ssl == flag_or(dotenv.value_of("BROKER_SSL"@), false),
            s.bots_path@ == value_or(dotenv.value_of("BOTS_PATH"@), "."@),
            string_views(s.pool_bots@) == list_names(
                split_seq(value_or(dotenv.value_of(pool_bots_key()), default_pool_bots()), ','),
            ),
            s.command_timeout_secs == parsed_or(
                dotenv.value_of("COMMAND_TIMEOUT_SECS"@),
                u64::MAX as nat,
                30,
            ),
            s.heartbeat_timeout_secs == parsed_or(
                dotenv.value_of("HEARTBEAT_TIMEOUT_SECS"@),
                u64::MAX as nat,
                30,
            ),
            s.r2_enabled == flag_or(dotenv.value_of("R2_ENABLED"@), false),
            s.r2_bucket@ == value_or(dotenv.value_of("R2_BUCKET"@), Seq::empty()),
            s.r2_endpoint_url@ == value_or(dotenv.value_of("R2_ENDPOINT_URL"@), Seq::empty()),
            s.r2_access_key_id@ == value_or(dotenv.value_of("R2_ACCESS_KEY_ID"@), Seq::empty()),
            s.r2_secret_access_key@ == value_or(
                dotenv.value_of("R2_SECRET_ACCESS_KEY"@),
                Seq::empty(),
            ),
            s.r2_prefix@ == value_or(dotenv.value_of("R2_PREFIX"@), "bots"@),
    {
        let empty = "";
        proof {
            reveal_strlit("");
        }
        let pool = parse_pool_bots(dotenv);
        Settings {
            port: dotenv.parse_u16("RS_ORCHESTRATOR_PORT", 8001),
            broker_host: get_or(dotenv, "BROKER_HOST", "localhost"),
            broker_port: dotenv.parse_u16("BROKER_PORT", 1883),
            broker_username: empty_to_none(dotenv.get("BROKER_USERNAME")),
            broker_password: empty_to_none(dotenv.get("BROKER_PASSWORD")),
            broker_ssl: dotenv.parse_bool("BROKER_SSL", false),
            bots_path: get_or(dotenv, "BOTS_PATH", "."),
            pool_bots: pool,
            command_timeout_secs: dotenv.parse_u64("COMMAND_TIMEOUT_SECS", 30),
            heartbeat_timeout_secs: dotenv.parse_u64("HEARTBEAT_TIMEOUT_SECS", 30),
            r2_enabled: dotenv.parse_bool("R2_ENABLED", false),
            r2_bucket: get_or(dotenv, "R2_BUCKET", empty),
            r2_endpoint_url: get_or(dotenv, "R2_ENDPOINT_URL", empty),
            r2_access_key_id: get_or(dotenv, "R2_ACCESS_KEY_ID", empty),
            r2_secret_access_key: get_or(dotenv, "R2_SECRET_ACCESS_KEY", empty),
            r2_prefix: get_or(dotenv, "R2_PREFIX", "bots"),
        }
    }

    /// How long a command may take, in seconds.
    pub fn command_timeout(&self) -> (secs: u64)
        ensures
            secs == self.command_timeout_secs,
    {
        self.command_timeout_secs
    }

    /// How long a bot may stay silent before it counts as offline, in seconds.
    pub fn heartbeat_timeout(&self) -> (secs: u64)
        ensures
            secs == self.heartbeat_timeout_secs,
    {
        self.heartbeat_timeout_secs
    }
}

} // verus!
