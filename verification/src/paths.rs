//! File-system paths the program derives: config locations, the shim directory, shim
//! scripts, and how the real CLIs are told apart from the shims.
use vstd::prelude::*;

use crate::text::{chars_eq, chars_of, concat, string_of, trim, trim_str};

verus! {

/// `PathBuf::push` on Unix: an absolute `rel` replaces `base`; otherwise `rel` is appended,
/// with a `/` in between unless `base` is empty or already ends with one.
pub open spec fn spec_push_path(base: Seq<char>, rel: Seq<char>) -> Seq<char> {
    if rel.len() > 0 && rel[0] == '/' {
        rel
    } else if base.len() > 0 && base.last() != '/' {
        base + seq!['/'] + rel
    } else {
        base + rel
    }
}

/// Joins `rel` onto `base` as `PathBuf::push` does.
pub fn push_path(base: &str, rel: &str) -> (r: String)
    ensures
        r@ == spec_push_path(base@, rel@),
{
    let b = chars_of(base);
    let rv = chars_of(rel);
    if rv.len() > 0 && rv[0] == '/' {
        rel.to_owned()
    } else if b.len() > 0 && b[b.len() - 1] != '/' {
        let mut sep: Vec<char> = Vec::new();
        sep.push('/');
        let s = string_of(&sep);
        let with_sep = concat(base, s.as_str());
        let r = concat(with_sep.as_str(), rel);
        assert(sep@ =~= seq!['/']);
        r
    } else {
        concat(base, rel)
    }
}

/// The home directory as `std::env::var_os("HOME").unwrap_or_default()` gives it.
pub open spec fn home_or_empty(home: Option<&str>) -> Seq<char> {
    match home {
        Some(h) => h@,
        None => Seq::<char>::empty(),
    }
}

fn home_str(home: Option<&str>) -> (r: &str)
    ensures
        r@ == home_or_empty(home),
{
    match home {
        Some(h) => h,
        None => {
            proof {
                reveal_strlit("");
            }
            assert(""@ =~= Seq::<char>::empty());
            ""
        },
    }
}

/// The config files looked for, in order: `search-proxy.toml` in the working directory,
/// then `~/.config/search-proxy/config.toml` when `HOME` is set.
pub fn config_candidates(home: Option<&str>) -> (r: Vec<String>)
    ensures
        home is None ==> r@.len() == 1,
        home is Some ==> r@.len() == 2,
        r@[0]@ == "search-proxy.toml"@,
        home matches Some(h) ==> r@[1]@ == spec_push_path(h@, ".config/search-proxy/config.toml"@),
{
    let mut r: Vec<String> = Vec::new();
    r.push("search-proxy.toml".to_owned());
    match home {
        Some(h) => {
            r.push(push_path(h, ".config/search-proxy/config.toml"));
        },
        None => {},
    }
    r
}

/// Where `install` puts the shims by default: `~/.local/bin`.
pub fn default_install_dir(home: Option<&str>) -> (r: String)
    ensures
        r@ == spec_push_path(home_or_empty(home), ".local/bin"@),
{
    push_path(home_str(home), ".local/bin")
}

/// The config file that `install` records the real CLI paths in.
pub fn wrap_config_path(home: Option<&str>) -> (r: String)
    ensures
        r@ == spec_push_path(home_or_empty(home), ".config/search-proxy/config.toml"@),
{
    push_path(home_str(home), ".config/search-proxy/config.toml")
}

/// The shim script for a provider: a POSIX shell script that runs `<exe> wrap <provider> --`
/// with all of its own arguments.
pub open spec fn spec_shim_script(exe: Seq<char>, provider: Seq<char>) -> Seq<char> {
    "#!/bin/sh\nexec \""@ + exe + "\" wrap "@ + provider + " -- \"$@\"\n"@
}

/// Writes out the shim script for a provider.
pub fn shim_script(exe: &str, provider: &str) -> (r: String)
    ensures
        r@ == spec_shim_script(exe@, provider@),
{
    let a = concat("#!/bin/sh\nexec \"", exe);
    let b = concat(a.as_str(), "\" wrap ");
    let c = concat(b.as_str(), provider);
    concat(c.as_str(), " -- \"$@\"\n")
}

/// State of a left-to-right split of a path at `/`: finished parts and the part in progress.
pub struct SplitState {
    pub parts: Seq<Seq<char>>,
    pub cur: Seq<char>,
}

/// Ends the part in progress: empty parts and `.` parts are dropped.
pub open spec fn flush_part(parts: Seq<Seq<char>>, cur: Seq<char>) -> Seq<Seq<char>> {
    if cur.len() == 0 || cur == seq!['.'] {
        parts
    } else {
        parts.push(cur)
    }
}

pub open spec fn split_step(st: SplitState, c: char) -> SplitState {
    if c == '/' {
        SplitState { parts: flush_part(st.parts, st.cur), cur: Seq::<char>::empty() }
    } else {
        SplitState { parts: st.parts, cur: st.cur.push(c) }
    }
}

pub open spec fn split_fold(s: Seq<char>) -> SplitState
    decreases s.len(),
{
    if s.len() == 0 {
        SplitState { parts: Seq::<Seq<char>>::empty(), cur: Seq::<char>::empty() }
    } else {
        split_step(split_fold(s.drop_last()), s.last())
    }
}

/// The named parts of a path: what lies between `/`s, without empty and `.` parts.
pub open spec fn named_parts(s: Seq<char>) -> Seq<Seq<char>> {
    flush_part(split_fold(s).parts, split_fold(s).cur)
}

/// The components of a Unix path as `Path::components` yields them: a root `/` first for
/// an absolute path, a `.` first for a relative path that is `.` or starts with `./`, then
/// the named parts (a `..` part stays).
pub open spec fn path_components(s: Seq<char>) -> Seq<Seq<char>> {
    let lead = if s.len() > 0 && s[0] == '/' {
        seq![seq!['/']]
    } else if s.len() > 0 && s[0] == '.' && (s.len() == 1 || s[1] == '/') {
        seq![seq!['.']]
    } else {
        Seq::<Seq<char>>::empty()
    };
    lead + named_parts(s)
}

/// `Path::starts_with`: the components of `base` begin the components of `p`.
pub open spec fn path_starts_with(p: Seq<char>, base: Seq<char>) -> bool {
    let a = path_components(p);
    let b = path_components(base);
    b.len() <= a.len() && a.take(b.len() as int) == b
}

/// `Path` equality: the same components.
pub open spec fn same_path(a: Seq<char>, b: Seq<char>) -> bool {
    path_components(a) == path_components(b)
}

/// The components of a path, computed.
fn components(s: &str) -> (r: Vec<Vec<char>>)
    ensures
        r@.len() == path_components(s@).len(),
        forall|i: int| 0 <= i < r@.len() ==> #[trigger] r@[i]@ == path_components(s@)[i],
{
    let v = chars_of(s);
    let mut out: Vec<Vec<char>> = Vec::new();
    let ghost lead = if s@.len() > 0 && s@[0] == '/' {
        seq![seq!['/']]
    } else if s@.len() > 0 && s@[0] == '.' && (s@.len() == 1 || s@[1] == '/') {
        seq![seq!['.']]
    } else {
        Seq::<Seq<char>>::empty()
    };
    if v.len() > 0 && v[0] == '/' {
        let mut root: Vec<char> = Vec::new();
        root.push('/');
        out.push(root);
    } else if v.len() > 0 && v[0] == '.' && (v.len() == 1 || v[1] == '/') {
        let mut cur_dir: Vec<char> = Vec::new();
        cur_dir.push('.');
        out.push(cur_dir);
    }
    assert(out@.len() == lead.len());
    assert(forall|k: int| 0 <= k < out@.len() ==> #[trigger] out@[k]@ == lead[k]);
    let mut cur: Vec<char> = Vec::new();
    let mut i: usize = 0;
    while i < v.len()
        invariant
            i <= v.len(),
            v@ == s@,
            out@.len() == lead.len() + split_fold(v@.take(i as int)).parts.len(),
            forall|k: int| 0 <= k < lead.len() ==> #[trigger] out@[k]@ == lead[k],
            forall|k: int|
                0 <= k < split_fold(v@.take(i as int)).parts.len() ==> #[trigger] out@[lead.len() + k]@
                    == split_fold(v@.take(i as int)).parts[k],
            cur@ == split_fold(v@.take(i as int)).cur,
        decreases v.len() - i,
    {
        let ghost pre = split_fold(v@.take(i as int));
        assert(v@.take(i + 1).drop_last() =~= v@.take(i as int));
        assert(v@.take(i + 1).last() == v@[i as int]);
        let c = v[i];
        if c == '/' {
            let dot = cur.len() == 1 && cur[0] == '.';
            proof {
                assert(dot == (cur@ == seq!['.'])) by {
                    if cur@.len() == 1 {
                        if cur@[0] == '.' {
                            assert(cur@ =~= seq!['.']);
                        }
                    }
                }
            }
            if cur.len() > 0 && !dot {
                out.push(cur);
            }
            cur = Vec::new();
        } else {
            cur.push(c);
        }
        i = i + 1;
    }
    assert(v@.take(v.len() as int) =~= v@);
    let dot = cur.len() == 1 && cur[0] == '.';
    proof {
        assert(dot == (cur@ == seq!['.'])) by {
            if cur@.len() == 1 {
                if cur@[0] == '.' {
                    assert(cur@ =~= seq!['.']);
                }
            }
        }
    }
    let ghost st = split_fold(v@);
    let ghost before = out@;
    if cur.len() > 0 && !dot {
        out.push(cur);
    }
    proof {
        let pc = path_components(s@);
        assert(pc == lead + flush_part(st.parts, st.cur));
        assert forall|k: int| 0 <= k < out@.len() implies #[trigger] out@[k]@ == pc[k] by {
            if k < lead.len() {
            } else if k < lead.len() + st.parts.len() {
                assert(out@[k] == before[k]);
                assert(out@[lead.len() + (k - lead.len())]@ == st.parts[k - lead.len()]);
            } else {
            }
        }
    }
    out
}

fn components_eq(a: &Vec<Vec<char>>, b: &Vec<Vec<char>>, n: usize) -> (r: bool)
    requires
        n <= a.len(),
        n <= b.len(),
    ensures
        r == (forall|i: int| 0 <= i < n ==> a@[i]@ == b@[i]@),
{
    let mut i: usize = 0;
    while i < n
        invariant
            i <= n,
            n <= a.len(),
            n <= b.len(),
            forall|j: int| 0 <= j < i ==> a@[j]@ == b@[j]@,
        decreases n - i,
    {
        if !chars_eq(&a[i], &b[i]) {
            return false;
        }
        i = i + 1;
    }
    true
}

/// Whether path `p` lies under `base`, component by component (`Path::starts_with`).
pub fn path_has_prefix(p: &str, base: &str) -> (r: bool)
    ensures
        r == path_starts_with(p@, base@),
{
    let a = components(p);
    let b = components(base);
    if b.len() > a.len() {
        return false;
    }
    let r = components_eq(&a, &b, b.len());
    proof {
        let pa = path_components(p@);
        let pb = path_components(base@);
        if r {
            assert forall|i: int| 0 <= i < pb.len() implies pa.take(pb.len() as int)[i] == pb[i] by {
                assert(a@[i]@ == pa[i]);
                assert(b@[i]@ == pb[i]);
            }
            assert(pa.take(pb.len() as int) =~= pb);
        } else {
            if pa.take(pb.len() as int) == pb {
                assert forall|i: int| 0 <= i < b.len() implies a@[i]@ == b@[i]@ by {
                    assert(pa.take(pb.len() as int)[i] == pb[i]);
                    assert(a@[i]@ == pa[i]);
                    assert(b@[i]@ == pb[i]);
                }
            }
        }
    }
    r
}

/// Whether two paths are the same path (`Path` equality).
pub fn paths_equal(x: &str, y: &str) -> (r: bool)
    ensures
        r == same_path(x@, y@),
{
    let a = components(x);
    let b = components(y);
    if a.len() != b.len() {
        return false;
    }
    let r = components_eq(&a, &b, a.len());
    proof {
        if r {
            assert forall|i: int| 0 <= i < a@.len() implies path_components(x@)[i] == path_components(y@)[i] by {
                assert(a@[i]@ == path_components(x@)[i]);
                assert(b@[i]@ == path_components(y@)[i]);
            }
            assert(path_components(x@) =~= path_components(y@));
        } else {
            if path_components(x@) == path_components(y@) {
                assert forall|i: int| 0 <= i < a@.len() implies a@[i]@ == b@[i]@ by {
                    assert(a@[i]@ == path_components(x@)[i]);
                    assert(b@[i]@ == path_components(y@)[i]);
                }
            }
        }
    }
    r
}

/// The pieces of `s` between occurrences of `sep`, in order (there is always at least one).
pub open spec fn split_on(s: Seq<char>, sep: char) -> Seq<Seq<char>>
    decreases s.len(),
{
    if s.len() == 0 {
        seq![Seq::<char>::empty()]
    } else {
        let r = split_on(s.drop_last(), sep);
        if s.last() == sep {
            r.push(Seq::<char>::empty())
        } else {
            r.update(r.len() - 1, r.last().push(s.last()))
        }
    }
}

proof fn lemma_split_nonempty(s: Seq<char>, sep: char)
    ensures
        split_on(s, sep).len() >= 1,
    decreases s.len(),
{
    if s.len() > 0 {
        lemma_split_nonempty(s.drop_last(), sep);
    }
}

/// The pieces of `s` between occurrences of `sep`.
fn split_pieces(s: &str, sep: char) -> (r: Vec<String>)
    ensures
        r@.len() == split_on(s@, sep).len(),
        forall|i: int| 0 <= i < r@.len() ==> #[trigger] r@[i]@ == split_on(s@, sep)[i],
{
    let v = chars_of(s);
    let mut done: Vec<String> = Vec::new();
    let mut cur: Vec<char> = Vec::new();
    let mut i: usize = 0;
    while i < v.len()
        invariant
            i <= v.len(),
            v@ == s@,
            split_on(v@.take(i as int), sep).len() == done@.len() + 1,
            forall|k: int| 0 <= k < done@.len() ==> #[trigger] done@[k]@ == split_on(v@.take(i as int), sep)[k],
            cur@ == split_on(v@.take(i as int), sep).last(),
        decreases v.len() - i,
    {
        proof {
            lemma_split_nonempty(v@.take(i as int), sep);
        }
        assert(v@.take(i + 1).drop_last() =~= v@.take(i as int));
        assert(v@.take(i + 1).last() == v@[i as int]);
        if v[i] == sep {
            done.push(string_of(&cur));
            cur = Vec::new();
        } else {
            cur.push(v[i]);
        }
        i = i + 1;
    }
    assert(v@.take(v.len() as int) =~= v@);
    done.push(string_of(&cur));
    done
}

/// The lines of `which -a` output that may be a real CLI: each line trimmed, empty ones and
/// those under the shim directory left out, in order.
pub open spec fn real_cli_candidates(lines: Seq<Seq<char>>, shim_dir: Seq<char>) -> Seq<Seq<char>>
    decreases lines.len(),
{
    if lines.len() == 0 {
        Seq::<Seq<char>>::empty()
    } else {
        let rest = real_cli_candidates(lines.drop_last(), shim_dir);
        let t = trim(lines.last());
        if t.len() == 0 || path_starts_with(t, shim_dir) {
            rest
        } else {
            rest.push(t)
        }
    }
}

/// The candidate real CLI paths in the output of `which -a <bin>`, skipping the shims
/// installed in `shim_dir`. (Lines are read as `str::lines` splits them; the trimming
/// removes a line's `\r`, and a last empty piece trims to nothing.)
pub fn probe_candidates(which_output: &str, shim_dir: &str) -> (r: Vec<String>)
    ensures
        r@.len() == real_cli_candidates(split_on(which_output@, '\n'), shim_dir@).len(),
        forall|i: int| 0 <= i < r@.len() ==> #[trigger] r@[i]@ == real_cli_candidates(split_on(which_output@, '\n'), shim_dir@)[i],
{
    let lines = split_pieces(which_output, '\n');
    let ghost ls = split_on(which_output@, '\n');
    let mut out: Vec<String> = Vec::new();
    let mut i: usize = 0;
    while i < lines.len()
        invariant
            i <= lines.len(),
            lines@.len() == ls.len(),
            forall|k: int| 0 <= k < lines@.len() ==> #[trigger] lines@[k]@ == ls[k],
            out@.len() == real_cli_candidates(ls.take(i as int), shim_dir@).len(),
            forall|k: int| 0 <= k < out@.len() ==> #[trigger] out@[k]@ == real_cli_candidates(ls.take(i as int), shim_dir@)[k],
        decreases lines.len() - i,
    {
        assert(ls.take(i + 1).drop_last() =~= ls.take(i as int));
        assert(ls.take(i + 1).last() == lines@[i as int]@);
        let t = trim_str(lines[i].as_str());
        if !(t.as_str().is_empty() || path_has_prefix(t.as_str(), shim_dir)) {
            out.push(t);
        }
        i = i + 1;
    }
    assert(ls.take(lines.len() as int) =~= ls);
    out
}

/// Whether some entry of the `PATH` value `path_var` (split at `:`) is the directory `dir`.
pub open spec fn spec_in_path(path_var: Seq<char>, dir: Seq<char>) -> bool {
    exists|i: int| 0 <= i < split_on(path_var, ':').len() && same_path(#[trigger] split_on(path_var, ':')[i], dir)
}

/// Whether `dir` is one of the directories of the `PATH` value `path_var`.
pub fn path_var_contains(path_var: &str, dir: &str) -> (r: bool)
    ensures
        r == spec_in_path(path_var@, dir@),
{
    let entries = split_pieces(path_var, ':');
    let ghost es = split_on(path_var@, ':');
    let mut i: usize = 0;
    while i < entries.len()
        invariant
            i <= entries.len(),
            es == split_on(path_var@, ':'),
            entries@.len() == es.len(),
            forall|k: int| 0 <= k < entries@.len() ==> #[trigger] entries@[k]@ == es[k],
            forall|k: int| 0 <= k < i ==> !same_path(#[trigger] es[k], dir@),
        decreases entries.len() - i,
    {
        if paths_equal(entries[i].as_str(), dir) {
            assert(entries@[i as int]@ == es[i as int]);
            assert(split_on(path_var@, ':')[i as int] == es[i as int]);
            return true;
        }
        i = i + 1;
    }
    false
}

} // verus!
