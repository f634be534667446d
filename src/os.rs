//! The operating system of a host, and the commands that differ by it.

use vstd::prelude::*;
use crate::text::{chars_of, lines, lines_of, push_all, str_eq, string_of_range, views};

verus! {

#[derive(Clone, Copy, Debug, PartialEq, Eq, Structural)]
pub enum HostOs {
    /// Ubuntu or Debian.
    Ubuntu,
    NixOs,
}

/// An OS name that is not supported.
#[derive(Debug)]
pub struct UnsupportedOs {
    pub name: String,
}

impl UnsupportedOs {
    pub fn message(&self) -> (r: String)
        ensures
            r@ == "Unsupported OS: '"@ + self.name@ + "'. Supported: ubuntu, debian, nixos"@,
    {
        let mut r = String::new();
        push_all(&mut r, "Unsupported OS: '");
        push_all(&mut r, self.name.as_str());
        push_all(&mut r, "'. Supported: ubuntu, debian, nixos");
        r
    }
}

pub open spec fn os_of(id: Seq<char>) -> Option<HostOs> {
    if id == "ubuntu"@ || id == "debian"@ {
        Some(HostOs::Ubuntu)
    } else if id == "nixos"@ {
        Some(HostOs::NixOs)
    } else {
        None
    }
}

/// `s` without any leading `ID=` prefixes.
pub open spec fn strip_id_prefixes(s: Seq<char>) -> Seq<char>
    decreases s.len(),
{
    if s.len() >= 3 && s.subrange(0, 3) == "ID="@ {
        strip_id_prefixes(s.subrange(3, s.len() as int))
    } else {
        s
    }
}

pub open spec fn strip_quotes_start(s: Seq<char>) -> Seq<char>
    decreases s.len(),
{
    if s.len() > 0 && s[0] == '"' {
        strip_quotes_start(s.drop_first())
    } else {
        s
    }
}

pub open spec fn strip_quotes_end(s: Seq<char>) -> Seq<char>
    decreases s.len(),
{
    if s.len() > 0 && s.last() == '"' {
        strip_quotes_end(s.drop_last())
    } else {
        s
    }
}

pub open spec fn starts_with_id(l: Seq<char>) -> bool {
    l.len() >= 3 && l.subrange(0, 3) == "ID="@
}

/// The index of the first line that starts with `ID=`.
pub open spec fn first_id_line(ls: Seq<Seq<char>>, from: int) -> Option<int>
    decreases ls.len() - from,
{
    if from < 0 || from >= ls.len() {
        None
    } else if starts_with_id(ls[from]) {
        Some(from)
    } else {
        first_id_line(ls, from + 1)
    }
}

/// The OS that an `/etc/os-release` text names: the value of its first
/// `ID=` line with quotes removed; Ubuntu when there is none.
pub open spec fn detect_spec(os_release: Seq<char>) -> Result<HostOs, Seq<char>> {
    let ls = lines_of(os_release);
    match first_id_line(ls, 0) {
        None => Ok(HostOs::Ubuntu),
        Some(i) => {
            let id = strip_quotes_end(strip_quotes_start(strip_id_prefixes(ls[i])));
            match os_of(id) {
                Some(o) => Ok(o),
                None => Err(id),
            }
        },
    }
}

fn starts_with_id_exec(l: &Vec<char>, from: usize) -> (r: bool)
    requires
        from <= l@.len(),
    ensures
        r == starts_with_id(l@.subrange(from as int, l@.len() as int)),
{
    let ghost s = l@.subrange(from as int, l@.len() as int);
    if l.len() - from < 3 {
        return false;
    }
    proof {
        reveal_strlit("ID=");
    }
    let r = l[from] == 'I' && l[from + 1] == 'D' && l[from + 2] == '=';
    assert(r == (s.subrange(0, 3) =~= "ID="@)) by {
        reveal_strlit("ID=");
        if !r {
            if l[from as int] != 'I' {
                assert(s.subrange(0, 3)[0] != "ID="@[0]);
            } else if l[from + 1] != 'D' {
                assert(s.subrange(0, 3)[1] != "ID="@[1]);
            } else {
                assert(s.subrange(0, 3)[2] != "ID="@[2]);
            }
        }
    }
    r
}

/// The value of an `ID=` line: prefixes and surrounding quotes removed.
fn id_value(line: &str) -> (r: String)
    ensures
        r@ == strip_quotes_end(strip_quotes_start(strip_id_prefixes(line@))),
{
    let v = chars_of(line);
    let n = v.len();
    let mut lo: usize = 0;
    assert(v@.subrange(0, n as int) =~= line@);
    while starts_with_id_exec(&v, lo)
        invariant
            lo <= n == v@.len(),
            v@ == line@,
            strip_id_prefixes(line@) == strip_id_prefixes(v@.subrange(lo as int, n as int)),
        decreases n - lo,
    {
        assert(v@.subrange(lo as int, n as int).subrange(3, (n - lo) as int) =~= v@.subrange(lo + 3, n as int));
        lo = lo + 3;
    }
    while lo < n && v[lo] == '"'
        invariant
            lo <= n == v@.len(),
            strip_quotes_start(strip_id_prefixes(line@)) == strip_quotes_start(v@.subrange(lo as int, n as int)),
        decreases n - lo,
    {
        assert(v@.subrange(lo as int, n as int).drop_first() =~= v@.subrange(lo + 1, n as int));
        lo = lo + 1;
    }
    let mut hi: usize = n;
    while hi > lo && v[hi - 1] == '"'
        invariant
            lo <= hi <= n == v@.len(),
            strip_quotes_end(strip_quotes_start(strip_id_prefixes(line@))) == strip_quotes_end(v@.subrange(lo as int, hi as int)),
        decreases hi,
    {
        assert(v@.subrange(lo as int, hi as int).drop_last() =~= v@.subrange(lo as int, hi - 1));
        hi = hi - 1;
    }
    string_of_range(&v, lo, hi)
}

impl HostOs {
    /// The OS for a configured name: `ubuntu` or `debian`, or `nixos`.
    pub fn from_config(s: &str) -> (r: Result<HostOs, UnsupportedOs>)
        ensures
            match r {
                Ok(o) => os_of(s@) == Some(o),
                Err(e) => os_of(s@) is None && e.name@ == s@,
            },
    {
        HostOs::from_id(s)
    }

    fn from_id(id: &str) -> (r: Result<HostOs, UnsupportedOs>)
        ensures
            match r {
                Ok(o) => os_of(id@) == Some(o),
                Err(e) => os_of(id@) is None && e.name@ == id@,
            },
    {
        if str_eq(id, "ubuntu") || str_eq(id, "debian") {
            Ok(HostOs::Ubuntu)
        } else if str_eq(id, "nixos") {
            Ok(HostOs::NixOs)
        } else {
            Err(UnsupportedOs { name: id.to_owned() })
        }
    }

    /// The OS that the text of `/etc/os-release` names.
    pub fn from_os_release(text: &str) -> (r: Result<HostOs, UnsupportedOs>)
        ensures
            match r {
                Ok(o) => detect_spec(text@) == Ok::<HostOs, Seq<char>>(o),
                Err(e) => detect_spec(text@) == Err::<HostOs, Seq<char>>(e.name@),
            },
    {
        let ls = lines(text);
        let mut i: usize = 0;
        while i < ls.len()
            invariant
                i <= ls@.len(),
                views(ls@) == lines_of(text@),
                first_id_line(views(ls@), 0) == first_id_line(views(ls@), i as int),
            decreases ls@.len() - i,
        {
            let v = chars_of(ls[i].as_str());
            assert(v@.subrange(0, v@.len() as int) =~= v@);
            if starts_with_id_exec(&v, 0) {
                let id = id_value(ls[i].as_str());
                return HostOs::from_id(id.as_str());
            }
            i = i + 1;
        }
        Ok(HostOs::Ubuntu)
    }

    /// The command that installs Docker.
    pub fn install_docker_cmd(&self) -> (r: &'static str)
        ensures
            r@ == match self {
                HostOs::Ubuntu => "curl -fsSL https://get.docker.com | sh"@,
                HostOs::NixOs => "grep -q 'virtualisation.docker.enable' /etc/nixos/configuration.nix || sed -i '/^}$/i\\  virtualisation.docker.enable = true;' /etc/nixos/configuration.nix && nixos-rebuild switch"@,
            },
    {
        match self {
            HostOs::Ubuntu => "curl -fsSL https://get.docker.com | sh",
            HostOs::NixOs => "grep -q 'virtualisation.docker.enable' /etc/nixos/configuration.nix || sed -i '/^}$/i\\  virtualisation.docker.enable = true;' /etc/nixos/configuration.nix && nixos-rebuild switch",
        }
    }

    /// The command that installs the WireGuard tools.
    pub fn install_wireguard_cmd(&self) -> (r: &'static str)
        ensures
            r@ == match self {
                HostOs::Ubuntu => "apt-get update -qq && apt-get install -y -qq wireguard-tools"@,
                HostOs::NixOs => "nix-env -iA nixos.wireguard-tools"@,
            },
    {
        match self {
            HostOs::Ubuntu => "apt-get update -qq && apt-get install -y -qq wireguard-tools",
            HostOs::NixOs => "nix-env -iA nixos.wireguard-tools",
        }
    }

    /// The command that adds `user` to the `docker` group. On NixOS groups
    /// are declarative, so the user's `extraGroups` is edited instead.
    pub fn add_docker_group_cmd(&self, user: &str) -> (r: String)
        ensures
            r@ == match self {
                HostOs::Ubuntu => "usermod -aG docker "@ + user@,
                HostOs::NixOs => "grep -q 'extraGroups.*docker' /etc/nixos/configuration.nix || sed -i '/users.users."@
                    + user@
                    + "/,/};/ s/extraGroups = \\[/extraGroups = [ \"docker\"/' /etc/nixos/configuration.nix && nixos-rebuild switch"@,
            },
    {
        let mut r = String::new();
        match self {
            HostOs::Ubuntu => {
                push_all(&mut r, "usermod -aG docker ");
                push_all(&mut r, user);
            },
            HostOs::NixOs => {
                push_all(&mut r, "grep -q 'extraGroups.*docker' /etc/nixos/configuration.nix || sed -i '/users.users.");
                push_all(&mut r, user);
                push_all(&mut r, "/,/};/ s/extraGroups = \\[/extraGroups = [ \"docker\"/' /etc/nixos/configuration.nix && nixos-rebuild switch");
            },
        }
        r
    }
}

} // verus!
