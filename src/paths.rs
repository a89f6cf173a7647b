use vstd::prelude::*;
use vstd::string::*;

use crate::error::VaultError;

verus! {

/// A path separator on any platform the vault runs on.
pub open spec fn is_separator(c: char) -> bool {
    c == '/' || c == '\\'
}

/// The pieces of `s` between separators, in order; empty pieces included.
pub open spec fn components(s: Seq<char>) -> Seq<Seq<char>>
    decreases s.len(),
{
    if s.len() == 0 {
        seq![Seq::empty()]
    } else {
        let init = components(s.drop_last());
        if is_separator(s.last()) {
            init.push(Seq::empty())
        } else {
            init.update(init.len() - 1, init.last().push(s.last()))
        }
    }
}

/// Applies one path component to a stack of directory names: empty and `.`
/// components change nothing, `..` leaves the innermost directory and fails
/// when there is none to leave, any other name is entered.
pub open spec fn step_component(stack: Seq<Seq<char>>, c: Seq<char>) -> Option<Seq<Seq<char>>> {
    if c.len() == 0 || c == seq!['.'] {
        Some(stack)
    } else if c == seq!['.', '.'] {
        if stack.len() == 0 {
            None
        } else {
            Some(stack.drop_last())
        }
    } else {
        Some(stack.push(c))
    }
}

/// Resolves a sequence of components from the root; `None` when it climbs
/// above the root at some point.
pub open spec fn resolve_components(cs: Seq<Seq<char>>) -> Option<Seq<Seq<char>>>
    decreases cs.len(),
{
    if cs.len() == 0 {
        Some(Seq::empty())
    } else {
        match resolve_components(cs.drop_last()) {
            None => None,
            Some(stack) => step_component(stack, cs.last()),
        }
    }
}

/// The components, below a root directory, of the entry that a relative
/// name designates; `None` when the name is absolute or leaves the root.
pub open spec fn resolve_inside(name: Seq<char>) -> Option<Seq<Seq<char>>> {
    if name.len() > 0 && is_separator(name[0]) {
        None
    } else {
        resolve_components(components(name))
    }
}

/// The views of a sequence of strings.
pub open spec fn string_views(v: Seq<String>) -> Seq<Seq<char>> {
    v.map_values(|x: String| x@)
}

/// Applies one component to `stack`; `false` when it would leave the root,
/// in which case `stack` is left unchanged.
fn apply_component(stack: &mut Vec<String>, comp: String) -> (ok: bool)
    ensures
        ok == step_component(string_views(old(stack)@), comp@) is Some,
        ok ==> string_views(final(stack)@) == step_component(string_views(old(stack)@), comp@)->0,
{
    let s = comp.as_str();
    let n = s.unicode_len();
    if n == 0 || (n == 1 && s.get_char(0) == '.') {
        assert(n == 1 ==> comp@ =~= seq!['.']);
        true
    } else if n == 2 && s.get_char(0) == '.' && s.get_char(1) == '.' {
        assert(comp@ =~= seq!['.', '.']);
        if stack.len() == 0 {
            false
        } else {
            stack.pop();
            assert(string_views(stack@) =~= string_views(old(stack)@).drop_last());
            true
        }
    } else {
        assert(comp@ != seq!['.']) by {
            if n == 1 {
                assert(comp@[0] != seq!['.'][0]);
            }
        }
        assert(comp@ != seq!['.', '.']) by {
            if n == 2 {
                assert(comp@[0] != seq!['.', '.'][0] || comp@[1] != seq!['.', '.'][1]);
            }
        }
        stack.push(comp);
        assert(string_views(stack@) =~= string_views(old(stack)@).push(comp@));
        true
    }
}

proof fn lemma_components_nonempty(s: Seq<char>)
    ensures
        components(s).len() >= 1,
    decreases s.len(),
{
    if s.len() > 0 {
        lemma_components_nonempty(s.drop_last());
    }
}

/// Resolves a file name given relative to a workspace into the directory
/// names that lead to it below the workspace root.
///
/// The name is refused with `PathEscape` when it is absolute or when one of
/// its `..` components would climb above the workspace root, so that no file
/// outside the workspace can be reached through it.
pub fn resolve_workspace_path(name: &String) -> (r: Result<Vec<String>, VaultError>)
    ensures
        match resolve_inside(name@) {
            None => r == Err::<Vec<String>, VaultError>(VaultError::PathEscape),
            Some(cs) => r is Ok && string_views(r->Ok_0@) == cs,
        },
{
    let s = name.as_str();
    let len = s.unicode_len();
    if len > 0 {
        let c0 = s.get_char(0);
        if c0 == '/' || c0 == '\\' {
            return Err(VaultError::PathEscape);
        }
    }
    let mut stack: Vec<String> = Vec::new();
    let mut escaped = false;
    let mut start: usize = 0;
    let mut i: usize = 0;
    let ghost mut done: Seq<Seq<char>> = Seq::empty();
    assert(name@.take(0) =~= Seq::<char>::empty());
    assert(components(name@.take(0)) =~= done.push(name@.subrange(0, 0)));
    assert(string_views(stack@) =~= Seq::<Seq<char>>::empty());
    while i < len
        invariant
            len == name@.len(),
            s@ == name@,
            start <= i <= len,
            components(name@.take(i as int)) == done.push(name@.subrange(start as int, i as int)),
            escaped <==> resolve_components(done) is None,
            !escaped ==> string_views(stack@) == resolve_components(done)->0,
        decreases len - i,
    {
        let c = s.get_char(i);
        let ghost prev = name@.take(i as int);
        assert(name@.take(i + 1).drop_last() =~= prev);
        assert(name@.take(i + 1).last() == c);
        if c == '/' || c == '\\' {
            let comp = String::from_str(s.substring_char(start, i));
            let ghost cv = comp@;
            proof {
                assert(done.push(cv).drop_last() =~= done);
            }
            if !escaped {
                let ok = apply_component(&mut stack, comp);
                if !ok {
                    escaped = true;
                }
            }
            proof {
                done = done.push(cv);
                assert(name@.subrange(i + 1, i + 1) =~= Seq::<char>::empty());
            }
            start = i + 1;
        } else {
            proof {
                lemma_components_nonempty(prev);
                assert(name@.subrange(start as int, i + 1) =~= name@.subrange(start as int, i as int).push(c));
                assert(components(name@.take(i + 1)) =~= done.push(name@.subrange(start as int, i + 1)));
            }
        }
        i = i + 1;
    }
    let last = String::from_str(s.substring_char(start, len));
    let ghost lv = last@;
    proof {
        assert(name@.take(len as int) =~= name@);
        assert(done.push(lv).drop_last() =~= done);
    }
    if !escaped {
        let ok = apply_component(&mut stack, last);
        if !ok {
            escaped = true;
        }
    }
    if escaped {
        Err(VaultError::PathEscape)
    } else {
        Ok(stack)
    }
}

} // verus!
