use vstd::prelude::*;

use crate::config::{Config, ConfigView, Perm, PermView};
use crate::text::{chars_of, split, split_str, str_eq, trim, trim_str, views};

verus! {

/// The administrative groups of a distribution, by the `ID` of its
/// OS-release descriptor, as a list with `:` between the names.
pub open spec fn groups_of_os(id: Seq<char>) -> Seq<char> {
    if id == "debian"@ {
        "sudo"@
    } else if id == "ubuntu"@ {
        "sudo:admin"@
    } else if id == "amzn"@ || id == "fedora"@ || id == "rhel"@ {
        "wheel"@
    } else {
        "sudo:wheel:admin"@
    }
}

/// A value without the pair of quotation marks around it, double or
/// single, if it stands in one.
pub open spec fn unquoted(value: Seq<char>) -> Seq<char> {
    if value.len() >= 2 && (value.first() == '"' || value.first() == '\'') && value.last()
        == value.first() {
        value.subrange(1, value.len() - 1)
    } else {
        value
    }
}

/// The key and the value that a line of an OS-release descriptor gives:
/// what stands before its first `=` and what stands between that and the
/// next, white space at the ends of the line and quotation marks around
/// the value apart. A line without `=` gives nothing.
pub open spec fn entry_of_line(line: Seq<char>) -> Option<(Seq<char>, Seq<char>)> {
    let parts = split(trim(line), '=');
    if parts.len() >= 2 {
        Some((parts[0], unquoted(parts[1])))
    } else {
        None
    }
}

/// The value of `ID` among the first `n` lines, the last such line first.
pub open spec fn id_among(lines: Seq<Seq<char>>, n: int) -> Option<Seq<char>>
    decreases n,
{
    if n <= 0 {
        None
    } else {
        match entry_of_line(lines[n - 1]) {
            Some((key, value)) => if key == "ID"@ {
                Some(value)
            } else {
                id_among(lines, n - 1)
            },
            None => id_among(lines, n - 1),
        }
    }
}

/// The `ID` that an OS-release descriptor gives, if it gives one.
pub open spec fn os_id_of(descriptor: Seq<char>) -> Option<Seq<char>> {
    id_among(split(descriptor, '\n'), split(descriptor, '\n').len() as int)
}

/// The group list in force: the override where one is given, else the
/// groups of the distribution that the OS-release descriptor names, else
/// those of an unknown one.
pub open spec fn groups_in_force(given: Option<Seq<char>>, descriptor: Option<Seq<char>>) -> Seq<
    char,
> {
    match given {
        Some(list) => list,
        None => match descriptor {
            Some(text) => match os_id_of(text) {
                Some(id) => groups_of_os(id),
                None => "sudo:wheel:admin"@,
            },
            None => "sudo:wheel:admin"@,
        },
    }
}

/// The policy that grants every command to the members of each named group.
pub open spec fn default_policy(names: Seq<Seq<char>>) -> ConfigView {
    ConfigView {
        timeout: ConfigView::default_timeout(),
        perms: Map::new(|name: Seq<char>| names.contains(name), |name: Seq<char>| PermView::whole_group()),
    }
}

/// The administrative groups of a distribution.
pub fn os_priv_groups(id: &str) -> (r: String)
    ensures
        r@ == groups_of_os(id@),
{
    if str_eq(id, "debian") {
        "sudo".to_owned()
    } else if str_eq(id, "ubuntu") {
        "sudo:admin".to_owned()
    } else if str_eq(id, "amzn") || str_eq(id, "fedora") || str_eq(id, "rhel") {
        "wheel".to_owned()
    } else {
        "sudo:wheel:admin".to_owned()
    }
}

/// A value without the pair of quotation marks around it.
pub fn unquote(value: &str) -> (r: String)
    ensures
        r@ == unquoted(value@),
{
    let chars = chars_of(value);
    let n = chars.len();
    if n >= 2 && (chars[0] == '"' || chars[0] == '\'') && chars[n - 1] == chars[0] {
        value.substring_char(1, n - 1).to_owned()
    } else {
        value.to_owned()
    }
}

/// The `ID` that an OS-release descriptor gives, if it gives one.
pub fn os_release_id(descriptor: &str) -> (r: Option<String>)
    ensures
        match r {
            Some(id) => os_id_of(descriptor@) == Some(id@),
            None => os_id_of(descriptor@) is None,
        },
{
    let lines = split_str(descriptor, '\n');
    let mut n: usize = lines.len();
    while n > 0
        invariant
            n <= lines.len(),
            views(lines@) == split(descriptor@, '\n'),
            os_id_of(descriptor@) == id_among(views(lines@), n as int),
        decreases n,
    {
        assert(views(lines@)[n - 1] == lines[n - 1]@);
        let line = trim_str(lines[n - 1].as_str());
        let parts = split_str(line.as_str(), '=');
        assert(parts.len() >= 2 ==> views(parts@)[0] == parts[0]@ && views(parts@)[1] == parts[1]@);
        if parts.len() >= 2 && str_eq(parts[0].as_str(), "ID") {
            return Some(unquote(parts[1].as_str()));
        }
        n -= 1;
    }
    None
}

/// The group list in force. An override always wins over what the
/// OS-release descriptor says of the host.
pub fn resolve_priv_groups(given: Option<&str>, descriptor: Option<&str>) -> (r: String)
    ensures
        r@ == groups_in_force(
            match given {
                Some(list) => Some(list@),
                None => None,
            },
            match descriptor {
                Some(text) => Some(text@),
                None => None,
            },
        ),
{
    match given {
        Some(list) => list.to_owned(),
        None => {
            let id = match descriptor {
                Some(text) => os_release_id(text),
                None => None,
            };
            match id {
                Some(id) => os_priv_groups(id.as_str()),
                None => "sudo:wheel:admin".to_owned(),
            }
        },
    }
}

/// The policy in force where there is no configuration file: every group
/// of the list, which has `:` between the names, may run every command.
/// Without a list there is no such policy.
pub fn default_priv_groups(groups: Option<&str>) -> (r: Option<Config>)
    ensures
        match groups {
            Some(list) => r is Some && r->Some_0@ == default_policy(split(list@, ':')),
            None => r is None,
        },
{
    match groups {
        None => None,
        Some(list) => {
            let names = split_str(list, ':');
            let mut config = Config::default();
            let mut i: usize = 0;
            assert(config@.perms =~= default_policy(views(names@).take(0)).perms);
            while i < names.len()
                invariant
                    i <= names.len(),
                    config@ == default_policy(views(names@).take(i as int)),
                decreases names.len() - i,
            {
                let ghost before = views(names@).take(i as int);
                let ghost after = views(names@).take(i + 1);
                config.insert(names[i].clone(), Perm::whole_group());
                proof {
                    assert(after == before.push(names[i as int]@));
                    assert forall|name: Seq<char>| after.contains(name) <==> (before.contains(name)
                        || name == names[i as int]@) by {
                        if before.contains(name) {
                            let j = choose|j: int| 0 <= j < before.len() && before[j] == name;
                            assert(after[j] == name);
                        }
                        if name == names[i as int]@ {
                            assert(after[i as int] == name);
                        }
                    }
                    assert(config@.perms =~= default_policy(after).perms);
                }
                i += 1;
            }
            assert(views(names@).take(names.len() as int) == views(names@));
            Some(config)
        },
    }
}

} // verus!
