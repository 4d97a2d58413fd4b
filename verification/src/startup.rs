//! Which command-line arguments the app opens at startup, and the paths it
//! holds until the window asks for them.

use vstd::prelude::*;
use crate::payloads::{starts_with, starts_with_at};
use crate::paths::{is_absolute, path_is_absolute};
use crate::strings::{chars_equal, chars_of};

verus! {

/// The folder part that marks the executable inside a macOS app bundle.
pub open spec fn app_executable_pattern() -> Seq<char> {
    ".app/Contents/MacOS/"@
}

/// Whether `s` holds `p` somewhere.
pub open spec fn contains_text(s: Seq<char>, p: Seq<char>) -> bool {
    exists|i: int| 0 <= i <= s.len() && #[trigger] starts_with(s.subrange(i, s.len() as int), p)
}

fn contains_chars(s: &Vec<char>, p: &[char]) -> (r: bool)
    ensures
        r == contains_text(s@, p@),
{
    if p.len() == 0 {
        assert(s@.subrange(0, s@.len() as int).subrange(0, 0) =~= p@);
        assert(starts_with(s@.subrange(0, s@.len() as int), p@));
        return true;
    }
    let mut i: usize = 0;
    while i < s.len()
        invariant
            i <= s.len(),
            p@.len() > 0,
            forall|j: int| 0 <= j < i ==> !#[trigger] starts_with(s@.subrange(j, s@.len() as int), p@),
        decreases s.len() - i,
    {
        if starts_with_at(s, i, p) {
            return true;
        }
        i = i + 1;
    }
    assert(!starts_with(s@.subrange(s@.len() as int, s@.len() as int), p@));
    false
}

/// An argument that may name a file: not empty and not a flag.
pub open spec fn spec_has_path_shape(arg: Seq<char>) -> bool {
    arg.len() > 0 && arg[0] != '-'
}

pub fn has_path_shape(arg: &str) -> (r: bool)
    ensures
        r == spec_has_path_shape(arg@),
{
    arg.unicode_len() > 0 && arg.get_char(0) != '-'
}

/// Whether a resolved path is the app's own executable: inside a macOS app
/// bundle (where bundles are in use), or the running executable itself.
pub open spec fn spec_is_app_executable_path(
    resolved: Seq<char>,
    current_exe: Option<Seq<char>>,
    app_bundles: bool,
) -> bool {
    (app_bundles && contains_text(resolved, app_executable_pattern())) || current_exe == Some(resolved)
}

pub fn is_app_executable_path(resolved: &str, current_exe: Option<&str>, app_bundles: bool) -> (r: bool)
    ensures
        r == spec_is_app_executable_path(
            resolved@,
            match current_exe { Some(e) => Some(e@), None => None },
            app_bundles,
        ),
{
    let chars = chars_of(resolved);
    if app_bundles {
        let pattern: [char; 20] = [
            '.', 'a', 'p', 'p', '/', 'C', 'o', 'n', 't', 'e', 'n', 't', 's', '/', 'M', 'a', 'c', 'O',
            'S', '/',
        ];
        proof { reveal_strlit(".app/Contents/MacOS/"); }
        assert(pattern@ == app_executable_pattern());
        if contains_chars(&chars, &pattern) {
            return true;
        }
    }
    match current_exe {
        Some(exe) => chars_equal(chars_of(exe).as_slice(), chars.as_slice()),
        None => false,
    }
}

/// What is known of an argument on this machine: whether its path is
/// absolute, what it resolves to (none where it cannot be resolved), and
/// whether the resolved path exists; and what the running executable
/// resolves to.
pub struct StartupFacts {
    pub absolute: bool,
    pub resolved: Option<String>,
    pub exists: bool,
    pub current_exe: Option<String>,
    pub app_bundles: bool,
}

/// An argument is opened at startup where it has the shape of a path, is
/// absolute, resolves, is not the app's own executable, and exists.
pub open spec fn spec_accepts(arg: Seq<char>, facts: StartupFacts) -> bool {
    &&& spec_has_path_shape(arg)
    &&& facts.absolute
    &&& facts.resolved.is_some()
    &&& !spec_is_app_executable_path(
        facts.resolved.unwrap()@,
        match facts.current_exe { Some(e) => Some(e@), None => None },
        facts.app_bundles,
    )
    &&& facts.exists
}

pub fn accepts_startup_path(arg: &str, facts: &StartupFacts) -> (r: bool)
    ensures
        r == spec_accepts(arg@, *facts),
{
    accepts_given(arg, facts.absolute, &facts.resolved, facts.exists, &facts.current_exe, facts.app_bundles)
}

/// `spec_accepts` with the facts given one by one.
fn accepts_given(
    arg: &str,
    absolute: bool,
    resolved: &Option<String>,
    exists: bool,
    current_exe: &Option<String>,
    app_bundles: bool,
) -> (r: bool)
    ensures
        r == spec_accepts(
            arg@,
            StartupFacts { absolute, resolved: *resolved, exists, current_exe: *current_exe, app_bundles },
        ),
{
    if !has_path_shape(arg) || !absolute {
        return false;
    }
    let resolved = match resolved {
        Some(p) => p,
        None => return false,
    };
    let exe = match current_exe {
        Some(e) => Some(e.as_str()),
        None => None,
    };
    if is_app_executable_path(resolved.as_str(), exe, app_bundles) {
        return false;
    }
    exists
}

/// What the machine says of an argument, with its absoluteness as the
/// platform's rule has it.
pub open spec fn facts_for(
    arg: Seq<char>,
    resolved: Option<String>,
    exists: bool,
    current_exe: Option<String>,
    app_bundles: bool,
) -> StartupFacts {
    StartupFacts { absolute: path_is_absolute(arg), resolved, exists, current_exe, app_bundles }
}

/// Whether `arg` is opened at startup, given what the machine says of its
/// resolved path: it has the shape of a path, is absolute by the platform's
/// rule, resolves, is not the app's own executable, and exists.
pub fn is_startup_path(
    arg: &str,
    resolved: Option<String>,
    exists: bool,
    current_exe: Option<String>,
    app_bundles: bool,
) -> (r: bool)
    ensures
        r == spec_accepts(arg@, facts_for(arg@, resolved, exists, current_exe, app_bundles)),
{
    if !has_path_shape(arg) {
        return false;
    }
    let absolute = is_absolute(arg);
    accepts_given(arg, absolute, &resolved, exists, &current_exe, app_bundles)
}

/// The arguments `is_startup_path` accepts, in their order, each judged with
/// what the machine says of its resolved path.
pub open spec fn spec_startup_args(paths: Seq<String>, facts: Seq<StartupFacts>) -> Seq<Seq<char>>
    decreases paths.len(),
{
    if paths.len() == 0 || facts.len() != paths.len() {
        Seq::empty()
    } else {
        let rest = spec_startup_args(paths.drop_last(), facts.drop_last());
        let f = facts.last();
        if spec_accepts(
            paths.last()@,
            facts_for(paths.last()@, f.resolved, f.exists, f.current_exe, f.app_bundles),
        ) {
            rest.push(paths.last()@)
        } else {
            rest
        }
    }
}

/// Keeps, in order, the paths that `is_startup_path` accepts; `facts` holds,
/// for each path, what the machine says of its resolved path (whether it is
/// absolute is asked of the platform here, whatever `facts` says).
pub fn filter_paths(paths: Vec<String>, facts: &Vec<StartupFacts>) -> (r: Vec<String>)
    requires
        facts@.len() == paths@.len(),
    ensures
        r@.map_values(|p: String| p@) == spec_startup_args(paths@, facts@),
{
    let mut out: Vec<String> = Vec::new();
    let mut i: usize = 0;
    while i < paths.len()
        invariant
            i <= paths@.len(),
            facts@.len() == paths@.len(),
            out@.map_values(|p: String| p@) == spec_startup_args(
                paths@.subrange(0, i as int),
                facts@.subrange(0, i as int),
            ),
        decreases paths@.len() - i,
    {
        let ghost before = out@;
        proof {
            assert(paths@.subrange(0, i + 1).drop_last() =~= paths@.subrange(0, i as int));
            assert(facts@.subrange(0, i + 1).drop_last() =~= facts@.subrange(0, i as int));
        }
        let f = &facts[i];
        let absolute = is_absolute(paths[i].as_str());
        if accepts_given(paths[i].as_str(), absolute, &f.resolved, f.exists, &f.current_exe, f.app_bundles) {
            out.push(paths[i].clone());
            assert(out@.map_values(|p: String| p@) =~= before.map_values(|p: String| p@).push(paths@[i as int]@));
        }
        i = i + 1;
    }
    assert(paths@.subrange(0, paths@.len() as int) =~= paths@);
    assert(facts@.subrange(0, facts@.len() as int) =~= facts@);
    out
}

/// The paths opened at startup among the process arguments.
pub fn parse_startup_args(args: &[String], facts: &Vec<StartupFacts>) -> (r: Vec<String>)
    requires
        facts@.len() == args@.len(),
    ensures
        r@.map_values(|p: String| p@) == spec_startup_args(args@, facts@),
{
    let mut all: Vec<String> = Vec::new();
    let mut i: usize = 0;
    while i < args.len()
        invariant
            i <= args@.len(),
            all@ == args@.subrange(0, i as int),
        decreases args@.len() - i,
    {
        all.push(args[i].clone());
        i = i + 1;
    }
    assert(args@.subrange(0, args@.len() as int) =~= args@);
    filter_paths(all, facts)
}

/// Paths the app was started with, held until the window asks for them.
pub struct StartupState {
    pub paths: Vec<String>,
}

/// Hands out the held paths and leaves none behind.
pub fn consume_startup_paths(state: &mut StartupState) -> (r: Vec<String>)
    ensures
        r@ == old(state).paths@,
        final(state).paths@ == Seq::<String>::empty(),
{
    let mut taken: Vec<String> = Vec::new();
    std::mem::swap(&mut taken, &mut state.paths);
    taken
}

} // verus!
