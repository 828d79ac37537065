//! Keeping `.telescope/` and `.env` listed in a workspace's `.gitignore`.

use vstd::prelude::*;
use crate::text::{
    chars_of, contains_line, has_newline, is_ws, lemma_lines_no_newline, lemma_lines_of_render,
    lemma_trim_idempotent, lemma_trim_no_newline, lines_spec, opt_str_view, trim_end_spec, trim_start_spec, render, render_lines, split_lines, string_from_chars, trim_chars,
    trim_spec, views,
};

verus! {

broadcast use vstd::string::group_string_axioms;

/// The entry that keeps run and eval logs out of version control.
pub open spec fn telescope_entry() -> Seq<char> {
    seq!['.', 't', 'e', 'l', 'e', 's', 'c', 'o', 'p', 'e', '/']
}

/// The entry that keeps the environment file out of version control.
pub open spec fn env_entry() -> Seq<char> {
    seq!['.', 'e', 'n', 'v']
}

/// The lines of an existing `.gitignore`, each trimmed; none when there is
/// no file.
pub open spec fn existing_lines(existing: Option<Seq<char>>) -> Seq<Seq<char>> {
    match existing {
        Some(content) => lines_spec(content).map_values(|l: Seq<char>| trim_spec(l)),
        None => seq![],
    }
}

/// `lines` with `entry` appended unless some line already equals it.
pub open spec fn with_entry(lines: Seq<Seq<char>>, entry: Seq<char>) -> Seq<Seq<char>> {
    if lines.contains(entry) {
        lines
    } else {
        lines.push(entry)
    }
}

/// The lines of the `.gitignore` after the required entries are ensured.
pub open spec fn merged_lines(existing: Option<Seq<char>>) -> Seq<Seq<char>> {
    with_entry(with_entry(existing_lines(existing), telescope_entry()), env_entry())
}

/// Whether some required entry was missing.
pub open spec fn entries_missing(existing: Option<Seq<char>>) -> bool {
    !existing_lines(existing).contains(telescope_entry()) || !existing_lines(existing).contains(
        env_entry(),
    )
}

/// The result of ensuring the entries: the new file content, and whether an
/// entry had to be added.
#[derive(Debug)]
pub struct GitignoreMerge {
    pub content: String,
    pub updated: bool,
}

/// Ensures that `.telescope/` and `.env` are lines of a `.gitignore` whose
/// content is `existing` (`None` when there is no file): the existing lines,
/// trimmed, are kept in order and each missing entry is appended.
pub fn merge_gitignore(existing: Option<&str>) -> (m: GitignoreMerge)
    ensures
        m.content@ == render_lines(merged_lines(opt_str_view(existing))),
        m.updated == entries_missing(opt_str_view(existing)),
{
    let mut lines: Vec<Vec<char>> = Vec::new();
    match existing {
        Some(content) => {
            let raw = split_lines(&chars_of(content));
            let mut k: usize = 0;
            while k < raw.len()
                invariant
                    k <= raw.len(),
                    views(raw@) == lines_spec(content@),
                    views(lines@) == views(raw@).take(k as int).map_values(
                        |l: Seq<char>| trim_spec(l),
                    ),
                decreases raw.len() - k,
            {
                let t = trim_chars(&raw[k]);
                let ghost before = lines@;
                lines.push(t);
                proof {
                    assert(views(raw@)[k as int] == raw@[k as int]@);
                    assert(views(raw@).take(k + 1) =~= views(raw@).take(k as int).push(
                        raw@[k as int]@,
                    ));
                    assert(views(lines@) =~= views(before).push(t@));
                    assert(views(raw@).take(k + 1).map_values(|l: Seq<char>| trim_spec(l))
                        =~= views(raw@).take(k as int).map_values(|l: Seq<char>| trim_spec(l)).push(
                        trim_spec(raw@[k as int]@),
                    ));
                }
                k += 1;
            }
            assert(views(raw@).take(raw.len() as int) =~= views(raw@));
        },
        None => {
            assert(views(lines@) =~= Seq::<Seq<char>>::empty());
        },
    }
    assert(views(lines@) == existing_lines(opt_str_view(existing)));
    let ghost base = views(lines@);
    let telescope = chars_of(".telescope/");
    let env = chars_of(".env");
    proof {
        reveal_strlit(".telescope/");
        reveal_strlit(".env");
        assert(telescope@ =~= telescope_entry());
        assert(env@ =~= env_entry());
    }
    let mut updated = false;
    if !contains_line(&lines, &telescope) {
        let ghost before = lines@;
        lines.push(telescope);
        updated = true;
        assert(views(lines@) =~= views(before).push(telescope_entry()));
    }
    assert(views(lines@) == with_entry(base, telescope_entry()));
    if !contains_line(&lines, &env) {
        let ghost before = lines@;
        lines.push(env);
        updated = true;
        assert(views(lines@) =~= views(before).push(env_entry()));
    }
    proof {
        assert(views(lines@) == merged_lines(opt_str_view(existing)));
        if base.contains(env_entry()) {
            assert(with_entry(base, telescope_entry()).contains(env_entry())) by {
                let j = choose|j: int| 0 <= j < base.len() && base[j] == env_entry();
                assert(with_entry(base, telescope_entry())[j] == env_entry());
            }
        } else {
            if with_entry(base, telescope_entry()).contains(env_entry()) {
                let w = with_entry(base, telescope_entry());
                let j = choose|j: int| 0 <= j < w.len() && w[j] == env_entry();
                if j < base.len() {
                    assert(base[j] == env_entry());
                } else {
                    assert(w[j] == telescope_entry());
                    assert(telescope_entry()[1] != env_entry()[1]);
                }
            }
        }
    }
    let content = string_from_chars(render(&lines).as_slice());
    GitignoreMerge { content, updated }
}


/// After ensuring, both `.telescope/` and `.env` are lines of the file.
pub proof fn lemma_gitignore_has_entries(existing: Option<Seq<char>>)
    ensures
        merged_lines(existing).contains(telescope_entry()),
        merged_lines(existing).contains(env_entry()),
{
    let base = existing_lines(existing);
    let w = with_entry(base, telescope_entry());
    if base.contains(telescope_entry()) {
        let j = choose|j: int| 0 <= j < base.len() && base[j] == telescope_entry();
        assert(with_entry(w, env_entry())[j] == telescope_entry());
    } else {
        assert(w[base.len() as int] == telescope_entry());
        assert(with_entry(w, env_entry())[base.len() as int] == telescope_entry());
    }
    if !w.contains(env_entry()) {
        assert(w.push(env_entry())[w.len() as int] == env_entry());
    }
}

/// What the `.gitignore` holds once the entries are ensured: the written
/// content when an entry was added or there was no file, the existing
/// content otherwise. Either way both `.telescope/` and `.env` are among its
/// trimmed lines, so a file that lacks either is rewritten.
pub proof fn lemma_gitignore_ends_with_entries(existing: Option<Seq<char>>)
    ensures
        !existing_lines(existing).contains(telescope_entry()) ==> entries_missing(existing),
        !existing_lines(existing).contains(env_entry()) ==> entries_missing(existing),
        ({
            let after = if entries_missing(existing) || existing is None {
                render_lines(merged_lines(existing))
            } else {
                existing->0
            };
            existing_lines(Some(after)).contains(telescope_entry()) && existing_lines(
                Some(after),
            ).contains(env_entry())
        }),
{
    lemma_gitignore_idempotent(existing);
    lemma_gitignore_has_entries(existing);
    if !(entries_missing(existing) || existing is None) {
        assert(Some(existing->0) == existing);
    }
}

/// Ensuring keeps every existing line, trimmed, in its place, and appends
/// exactly the missing entries, `.telescope/` before `.env`.
pub proof fn lemma_gitignore_keeps_lines(existing: Option<Seq<char>>)
    ensures
        merged_lines(existing) == existing_lines(existing) + (if existing_lines(
            existing,
        ).contains(telescope_entry()) {
            Seq::<Seq<char>>::empty()
        } else {
            seq![telescope_entry()]
        }) + (if existing_lines(existing).contains(env_entry()) {
            Seq::<Seq<char>>::empty()
        } else {
            seq![env_entry()]
        }),
{
    let base = existing_lines(existing);
    let w = with_entry(base, telescope_entry());
    lemma_entry_not_added_twice(base);
    if base.contains(telescope_entry()) {
        assert(base + Seq::<Seq<char>>::empty() =~= base);
    } else {
        assert(w =~= base + seq![telescope_entry()]);
    }
    if base.contains(env_entry()) {
        assert(w + Seq::<Seq<char>>::empty() =~= w);
    } else {
        assert(w.push(env_entry()) =~= w + seq![env_entry()]);
    }
}

/// `.env` is among the lines after appending `.telescope/` only if it was
/// among them before.
proof fn lemma_entry_not_added_twice(base: Seq<Seq<char>>)
    ensures
        with_entry(base, telescope_entry()).contains(env_entry()) == base.contains(env_entry()),
{
    let w = with_entry(base, telescope_entry());
    if base.contains(env_entry()) {
        let j = choose|j: int| 0 <= j < base.len() && base[j] == env_entry();
        assert(w[j] == env_entry());
    }
    if w.contains(env_entry()) {
        let j = choose|j: int| 0 <= j < w.len() && w[j] == env_entry();
        if j < base.len() {
            assert(base[j] == env_entry());
        } else {
            assert(telescope_entry()[1] != env_entry()[1]);
        }
    }
}

/// Every line after ensuring holds no `'\n'` and is its own trim.
proof fn lemma_merged_lines_clean(existing: Option<Seq<char>>)
    ensures
        forall|i: int|
            0 <= i < merged_lines(existing).len() ==> !has_newline(
                #[trigger] merged_lines(existing)[i],
            ) && trim_spec(merged_lines(existing)[i]) == merged_lines(existing)[i],
{
    let base = existing_lines(existing);
    match existing {
        Some(content) => {
            let raw = lines_spec(content);
            lemma_lines_no_newline(content, seq![], seq![]);
            assert forall|i: int| 0 <= i < base.len() implies !has_newline(#[trigger] base[i])
                && trim_spec(base[i]) == base[i] by {
                assert(base[i] == trim_spec(raw[i]));
                lemma_trim_no_newline(raw[i]);
                lemma_trim_idempotent(raw[i]);
            }
        },
        None => {},
    }
    lemma_entries_clean();
    let m = merged_lines(existing);
    lemma_gitignore_keeps_lines(existing);
    assert forall|i: int| 0 <= i < m.len() implies !has_newline(#[trigger] m[i]) && trim_spec(m[i])
        == m[i] by {
        if i >= base.len() {
            assert(m[i] == telescope_entry() || m[i] == env_entry());
        } else {
            assert(m[i] == base[i]);
        }
    }
}

proof fn lemma_entries_clean()
    ensures
        !has_newline(telescope_entry()),
        !has_newline(env_entry()),
        trim_spec(telescope_entry()) == telescope_entry(),
        trim_spec(env_entry()) == env_entry(),
{
    let t = telescope_entry();
    let e = env_entry();
    if t.contains('\n') {
        let k = choose|k: int| 0 <= k < t.len() && t[k] == '\n';
    }
    if e.contains('\n') {
        let k = choose|k: int| 0 <= k < e.len() && e[k] == '\n';
    }
    assert(!is_ws(t[0]) && !is_ws(t.last()));
    assert(!is_ws(e[0]) && !is_ws(e.last()));
    assert(trim_start_spec(t) == t);
    assert(trim_end_spec(t) == t);
    assert(trim_start_spec(e) == e);
    assert(trim_end_spec(e) == e);
}

/// Ensuring twice is ensuring once: on the file that one ensuring wrote,
/// nothing is missing and the lines stay as they are.
pub proof fn lemma_gitignore_idempotent(existing: Option<Seq<char>>)
    ensures
        existing_lines(Some(render_lines(merged_lines(existing)))) == merged_lines(existing),
        !entries_missing(Some(render_lines(merged_lines(existing)))),
        merged_lines(Some(render_lines(merged_lines(existing)))) == merged_lines(existing),
{
    let m = merged_lines(existing);
    lemma_merged_lines_clean(existing);
    lemma_lines_of_render(m);
    assert(lines_spec(render_lines(m)).map_values(|l: Seq<char>| trim_spec(l)) =~= m);
    lemma_gitignore_has_entries(existing);
}

} // verus!
