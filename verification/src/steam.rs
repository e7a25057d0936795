//! Steam integration data: the gamescope login user and that user's home
//! directory, read once at startup from daemon configuration and the
//! system's account database.

use vstd::prelude::*;

use crate::powerbutton::PowerAction;

verus! {

/// The gamescope login user and that user's home directory.
pub struct Steam {
    pub username: String,
    pub home_dir: String,
}

impl Steam {
    pub fn new(username: String, home_dir: String) -> (r: Self)
        ensures
            r.username == username,
            r.home_dir == home_dir,
    {
        Steam { username, home_dir }
    }
}

/// A byte sequence split at every occurrence of `sep`: the separators are
/// dropped and the pieces kept, in order. There is always at least one
/// piece; an empty input gives one empty piece.
pub open spec fn split_bytes(s: Seq<u8>, sep: u8) -> Seq<Seq<u8>>
    decreases s.len(),
{
    if s.len() == 0 {
        seq![Seq::<u8>::empty()]
    } else {
        let prefix = split_bytes(s.drop_last(), sep);
        if s.last() == sep {
            prefix.push(Seq::<u8>::empty())
        } else {
            prefix.update(prefix.len() - 1, prefix.last().push(s.last()))
        }
    }
}

pub proof fn lemma_split_bytes_nonempty(s: Seq<u8>, sep: u8)
    ensures
        split_bytes(s, sep).len() >= 1,
    decreases s.len(),
{
    if s.len() > 0 {
        lemma_split_bytes_nonempty(s.drop_last(), sep);
    }
}

/// Split a byte vector at every occurrence of `sep`.
pub fn split_bytes_exec(s: &Vec<u8>, sep: u8) -> (r: Vec<Vec<u8>>)
    ensures
        r.deep_view() == split_bytes(s@, sep),
{
    let mut fields: Vec<Vec<u8>> = Vec::new();
    let mut cur: Vec<u8> = Vec::new();
    let mut i: usize = 0;
    while i < s.len()
        invariant
            i <= s.len(),
            fields.deep_view().push(cur@) == split_bytes(s@.take(i as int), sep),
        decreases s.len() - i,
    {
        let ghost prev_fields: Seq<Seq<u8>> = fields.deep_view();
        let ghost prev_cur: Seq<u8> = cur@;
        proof {
            assert(s@.take(i + 1).drop_last() =~= s@.take(i as int));
            assert(s@.take(i + 1).last() == s@[i as int]);
        }
        let c = s[i];
        if c == sep {
            fields.push(cur);
            cur = Vec::new();
            proof {
                assert(fields.deep_view() =~~= prev_fields.push(prev_cur));
                assert(fields.deep_view().push(cur@) =~= split_bytes(s@.take(i + 1), sep));
            }
        } else {
            cur.push(c);
            proof {
                let prefix = split_bytes(s@.take(i as int), sep);
                assert(prefix.last() == prev_cur);
                assert(prefix.update(prefix.len() - 1, prev_cur.push(c)) =~= prev_fields.push(
                    prev_cur.push(c),
                ));
                assert(fields.deep_view().push(cur@) =~= split_bytes(s@.take(i + 1), sep));
            }
        }
        i = i + 1;
    }
    let ghost done_fields: Seq<Seq<u8>> = fields.deep_view();
    let ghost done_cur: Seq<u8> = cur@;
    fields.push(cur);
    proof {
        assert(s@.take(s@.len() as int) =~= s@);
        assert(fields.deep_view() =~~= done_fields.push(done_cur));
    }
    fields
}

/// Whether the colon-separated first field of a passwd line names `user`.
pub open spec fn line_matches(line: Seq<u8>, user: Seq<u8>) -> bool {
    split_bytes(line, 58)[0] == user
}

/// The home directory recorded on one passwd line: its sixth
/// colon-separated field, if the line has one and it is not empty.
pub open spec fn home_from_line(line: Seq<u8>) -> Option<Seq<u8>> {
    let fields = split_bytes(line, 58);
    if fields.len() > 5 && fields[5].len() > 0 {
        Option::Some(fields[5])
    } else {
        Option::None
    }
}

/// The home directory taken from the first line whose user field names
/// `user`; `None` when no line does, or when the first matching line is
/// malformed or holds an empty home field.
pub open spec fn home_in_lines(lines: Seq<Seq<u8>>, user: Seq<u8>) -> Option<Seq<u8>>
    decreases lines.len(),
{
    if lines.len() == 0 {
        Option::None
    } else if line_matches(lines[0], user) {
        home_from_line(lines[0])
    } else {
        home_in_lines(lines.drop_first(), user)
    }
}

/// The home directory that a passwd database, as newline-separated text,
/// records for `user`.
pub open spec fn spec_home_dir(passwd: Seq<u8>, user: Seq<u8>) -> Option<Seq<u8>> {
    home_in_lines(split_bytes(passwd, 10), user)
}

/// Byte-for-byte equality of two vectors.
fn bytes_eq(a: &Vec<u8>, b: &Vec<u8>) -> (r: bool)
    ensures
        r == (a@ == b@),
{
    if a.len() != b.len() {
        return false;
    }
    let mut i: usize = 0;
    while i < a.len()
        invariant
            i <= a.len(),
            a.len() == b.len(),
            forall|k: int| 0 <= k < i ==> a@[k] == b@[k],
        decreases a.len() - i,
    {
        if a[i] != b[i] {
            return false;
        }
        i = i + 1;
    }
    proof {
        assert(a@ =~= b@);
    }
    true
}

/// An owned copy of a byte vector.
fn bytes_copy(v: &Vec<u8>) -> (r: Vec<u8>)
    ensures
        r@ == v@,
{
    let mut out: Vec<u8> = Vec::new();
    let mut i: usize = 0;
    while i < v.len()
        invariant
            i <= v.len(),
            out@ =~= v@.take(i as int),
        decreases v.len() - i,
    {
        out.push(v[i]);
        i = i + 1;
    }
    proof {
        assert(v@.take(v@.len() as int) =~= v@);
    }
    out
}

/// Find the home directory of `user` in the text of the system's passwd
/// database, as `getent passwd` prints it: one colon-separated record per
/// line, the user name first and the home directory sixth.
pub fn home_dir_from_passwd(passwd: &Vec<u8>, user: &Vec<u8>) -> (r: Option<Vec<u8>>)
    ensures
        r matches Some(h) ==> spec_home_dir(passwd@, user@) == Option::Some(h@),
        r is None ==> spec_home_dir(passwd@, user@) is None,
{
    let lines = split_bytes_exec(passwd, 10);
    let ghost lseq: Seq<Seq<u8>> = lines.deep_view();
    proof {
        assert(lseq.skip(0) =~= lseq);
    }
    let mut i: usize = 0;
    while i < lines.len()
        invariant
            i <= lines.len(),
            lseq == lines.deep_view(),
            lseq == split_bytes(passwd@, 10),
            lseq.len() == lines.len(),
            home_in_lines(lseq.skip(i as int), user@) == home_in_lines(lseq, user@),
        decreases lines.len() - i,
    {
        let fields = split_bytes_exec(&lines[i], 58);
        proof {
            lemma_split_bytes_nonempty(lines[i as int]@, 58);
            assert(lseq[i as int] == lines[i as int]@);
            assert(lseq.skip(i as int)[0] == lseq[i as int]);
            assert(lseq.skip(i as int).drop_first() =~= lseq.skip(i + 1));
            assert(fields.deep_view()[0] == fields[0]@);
        }
        if bytes_eq(&fields[0], user) {
            if fields.len() > 5 && fields[5].len() > 0 {
                proof {
                    assert(fields.deep_view()[5] == fields[5]@);
                }
                return Option::Some(bytes_copy(&fields[5]));
            } else {
                proof {
                    if fields.deep_view().len() > 5 {
                        assert(fields.deep_view()[5] == fields[5]@);
                    }
                }
                return Option::None;
            }
        }
        i = i + 1;
    }
    proof {
        assert(lseq.skip(lseq.len() as int) =~= Seq::<Seq<u8>>::empty());
    }
    Option::None
}

/// `toml::Value` passes through the configuration reader opaquely: the
/// library hands it from the parser to the accessors and never looks
/// inside.
#[verifier::external_type_specification]
#[verifier::external_body]
pub struct ExTomlValue(toml::Value);

/// The table at the root of a parsed TOML document passes through the
/// configuration reader opaquely, like the values inside it.
#[verifier::external_type_specification]
#[verifier::external_body]
#[verifier::reject_recursive_types(K)]
#[verifier::reject_recursive_types(V)]
pub struct ExTomlMap<K, V>(toml::map::Map<K, V>);

/// Relies on toml's `FromStr` impl for `toml::Table`: parses a TOML
/// document into its root table, `None` when the text is not well-formed
/// TOML.
#[verifier::external_body]
fn parse_toml(text: &str) -> (r: Option<toml::Table>) {
    text.parse::<toml::Table>().ok()
}

/// Relies on `toml::map::Map::get`: looks `key` up in the root table of a
/// parsed document, `None` when the table has no such key.
#[verifier::external_body]
fn toml_table_get<'a>(table: &'a toml::Table, key: &str) -> (r: Option<&'a toml::Value>) {
    table.get(key)
}

/// Relies on `toml::Value::get` with a string index: looks `key` up when
/// the value is a table, `None` when it is not or has no such key.
#[verifier::external_body]
fn toml_get<'a>(value: &'a toml::Value, key: &str) -> (r: Option<&'a toml::Value>) {
    value.get(key)
}

/// Relies on `toml::Value::as_str`: the string payload when the value is
/// a TOML string, `None` otherwise.
#[verifier::external_body]
fn toml_as_str(value: &toml::Value) -> (r: Option<String>) {
    value.as_str().map(|s| s.to_string())
}

/// The gamescope login user that daemon configuration text names: the
/// string under the `login.autologin.user` key of the TOML document, or
/// `None` when the text does not parse or the key is missing or not a
/// string. The TOML reader decides the result; this function only chains
/// its steps.
pub fn login_user(config_text: &str) -> (r: Option<String>) {
    let parsed = match parse_toml(config_text) {
        Option::Some(v) => v,
        Option::None => {
            return Option::None;
        },
    };
    let login = match toml_table_get(&parsed, "login") {
        Option::Some(v) => v,
        Option::None => {
            return Option::None;
        },
    };
    let autologin = match toml_get(login, "autologin") {
        Option::Some(v) => v,
        Option::None => {
            return Option::None;
        },
    };
    let user = match toml_get(autologin, "user") {
        Option::Some(v) => v,
        Option::None => {
            return Option::None;
        },
    };
    toml_as_str(user)
}

/// The byte sequence of the command-line flag that marks a console-style
/// (gamepad UI) Steam session.
pub open spec fn gamepadui_flag() -> Seq<u8> {
    seq![45u8, 103u8, 97u8, 109u8, 101u8, 112u8, 97u8, 100u8, 117u8, 105u8]
}

/// Whether `needle` occurs contiguously inside `haystack`.
pub open spec fn has_subseq(haystack: Seq<u8>, needle: Seq<u8>) -> bool {
    exists|i: int|
        0 <= i && i + needle.len() <= haystack.len() && #[trigger] haystack.subrange(
            i,
            i + needle.len(),
        ) == needle
}

/// Substring search over byte vectors.
fn contains_bytes(haystack: &Vec<u8>, needle: &Vec<u8>) -> (r: bool)
    ensures
        r == has_subseq(haystack@, needle@),
{
    if needle.len() > haystack.len() {
        return false;
    }
    let mut i: usize = 0;
    while i <= haystack.len() - needle.len()
        invariant
            needle.len() <= haystack.len(),
            i <= haystack.len() - needle.len() + 1,
            forall|k: int|
                0 <= k < i ==> #[trigger] haystack@.subrange(k, k + needle@.len()) != needle@,
        decreases haystack.len() - needle.len() + 1 - i,
    {
        let mut j: usize = 0;
        while j < needle.len() && haystack[i + j] == needle[j]
            invariant
                needle.len() <= haystack.len(),
                i <= haystack.len() - needle.len(),
                j <= needle.len(),
                forall|k: int| 0 <= k < j ==> haystack@[i + k] == needle@[k],
            decreases needle.len() - j,
        {
            j = j + 1;
        }
        if j == needle.len() {
            proof {
                assert(haystack@.subrange(i as int, i + needle@.len()) =~= needle@);
            }
            return true;
        }
        proof {
            assert(haystack@.subrange(i as int, i + needle@.len())[j as int] == haystack@[i + j]);
        }
        i = i + 1;
    }
    false
}

/// Whether the command line of a running Steam process shows the flag of a
/// console-style session.
pub fn is_gamemode_cmdline(cmdline: &Vec<u8>) -> (r: bool)
    ensures
        r == has_subseq(cmdline@, gamepadui_flag()),
{
    let mut flag: Vec<u8> = Vec::new();
    flag.push(45);
    flag.push(103);
    flag.push(97);
    flag.push(109);
    flag.push(101);
    flag.push(112);
    flag.push(97);
    flag.push(100);
    flag.push(117);
    flag.push(105);
    proof {
        assert(flag@ =~= gamepadui_flag());
    }
    contains_bytes(cmdline, &flag)
}

/// The Steam browser-protocol command to forward a classified press to a
/// running game session; `None` for the actions that do not go through
/// Steam.
pub fn forward_command(action: PowerAction) -> (r: Option<&'static str>)
    ensures
        action == PowerAction::ForwardShortPress ==> (r matches Some(c) && c@
            == "steam://shortpowerpress"@),
        action == PowerAction::ForwardLongPress ==> (r matches Some(c) && c@
            == "steam://longpowerpress"@),
        action == PowerAction::Suspend || action == PowerAction::Poweroff ==> r is None,
{
    match action {
        PowerAction::ForwardShortPress => Option::Some("steam://shortpowerpress"),
        PowerAction::ForwardLongPress => Option::Some("steam://longpowerpress"),
        PowerAction::Suspend => Option::None,
        PowerAction::Poweroff => Option::None,
    }
}

} // verus!
