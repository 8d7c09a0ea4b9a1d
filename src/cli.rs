//! Command tokens: an action keyword chooses the mode for the whole batch
//! (the last one given wins); every other token is a package name.

use vstd::prelude::*;

verus! {

#[derive(Clone, Copy, Debug, PartialEq, Eq, Structural)]
pub enum Mode {
    Install,
    Remove,
    Unset,
}

pub open spec fn install_word() -> Seq<char> {
    seq!['i', 'n', 's', 't', 'a', 'l', 'l']
}

pub open spec fn remove_word() -> Seq<char> {
    seq!['r', 'e', 'm', 'o', 'v', 'e']
}

pub open spec fn is_keyword(t: Seq<char>) -> bool {
    t == install_word() || t == remove_word()
}

/// The mode named by the last keyword among `args`.
pub open spec fn mode_of(args: Seq<Seq<char>>) -> Mode
    decreases args.len(),
{
    if args.len() == 0 {
        Mode::Unset
    } else if args.last() == install_word() {
        Mode::Install
    } else if args.last() == remove_word() {
        Mode::Remove
    } else {
        mode_of(args.drop_last())
    }
}

/// The tokens that are not keywords, in order.
pub open spec fn packages_of(args: Seq<Seq<char>>) -> Seq<Seq<char>>
    decreases args.len(),
{
    if args.len() == 0 {
        seq![]
    } else if is_keyword(args.last()) {
        packages_of(args.drop_last())
    } else {
        packages_of(args.drop_last()).push(args.last())
    }
}

pub open spec fn texts(v: Seq<String>) -> Seq<Seq<char>> {
    v.map_values(|s: String| s@)
}

/// The status label of each mode.
pub open spec fn label_of(m: Mode) -> Seq<char> {
    match m {
        Mode::Install => seq!['I', 'N', 'S', 'T', 'A', 'L', 'L'],
        Mode::Remove => seq!['R', 'E', 'M', 'O', 'V', 'E'],
        Mode::Unset => seq!['N', 'O', 'N', 'E'],
    }
}

impl Mode {
    /// The label used in status lines.
    pub fn label(&self) -> (r: &'static str)
        ensures
            r@ == label_of(*self),
    {
        proof {
            reveal_strlit("INSTALL");
            reveal_strlit("REMOVE");
            reveal_strlit("NONE");
        }
        let r = match self {
            Mode::Install => "INSTALL",
            Mode::Remove => "REMOVE",
            Mode::Unset => "NONE",
        };
        assert(r@ =~= label_of(*self));
        r
    }
}

/// Whether two strings hold the same characters.
pub fn same_text(a: &str, b: &str) -> (r: bool)
    ensures
        r == (a@ == b@),
{
    let n = a.unicode_len();
    if n != b.unicode_len() {
        return false;
    }
    let mut i: usize = 0;
    while i < n
        invariant
            n == a@.len() == b@.len(),
            i <= n,
            forall|m: int| 0 <= m < i ==> a@[m] == b@[m],
        decreases n - i,
    {
        if a.get_char(i) != b.get_char(i) {
            return false;
        }
        i = i + 1;
    }
    assert(a@ =~= b@);
    true
}

/// Splits command tokens into the batch's mode and its package names.
pub fn parse_args(args: &Vec<String>) -> (r: (Mode, Vec<String>))
    ensures
        r.0 == mode_of(texts(args@)),
        texts(r.1@) == packages_of(texts(args@)),
{
    proof {
        reveal_strlit("install");
        reveal_strlit("remove");
        assert("install"@ =~= install_word());
        assert("remove"@ =~= remove_word());
    }
    let mut mode = Mode::Unset;
    let mut packages: Vec<String> = Vec::new();
    let mut i: usize = 0;
    while i < args.len()
        invariant
            i <= args@.len(),
            "install"@ == install_word(),
            "remove"@ == remove_word(),
            mode == mode_of(texts(args@).take(i as int)),
            texts(packages@) == packages_of(texts(args@).take(i as int)),
        decreases args@.len() - i,
    {
        let t = args[i].as_str();
        proof {
            let s = texts(args@).take(i + 1);
            assert(s.drop_last() =~= texts(args@).take(i as int));
            assert(s.last() == args@[i as int]@);
        }
        if same_text(t, "install") {
            mode = Mode::Install;
        } else if same_text(t, "remove") {
            mode = Mode::Remove;
        } else {
            packages.push(args[i].clone());
            assert(texts(packages@) =~= packages_of(texts(args@).take(i as int)).push(args@[i as int]@));
        }
        i = i + 1;
    }
    assert(texts(args@).take(args@.len() as int) =~= texts(args@));
    (mode, packages)
}

} // verus!
