//! Import remappings for a project rebuilt from fetched sources.
//!
//! When a project is assembled around one contract's fetched source
//! tree, its remappings still carry paths relative to wherever they
//! came from: every remapping path is re-rooted under the local sources
//! directory, and an `@openzeppelin/` remapping is supplied when the
//! fetched settings carry none.

use vstd::prelude::*;

use crate::text::str_starts_with;

verus! {

/// One import remapping.
#[derive(Debug, Clone, PartialEq, Eq)]
pub struct Remapping {
    /// The context the remapping applies in, if restricted.
    pub context: Option<String>,
    /// The import prefix being remapped.
    pub name: String,
    /// The path the prefix maps to.
    pub path: String,
}

/// Ghost image of a [`Remapping`].
pub ghost struct RemappingView {
    pub context: Option<Seq<char>>,
    pub name: Seq<char>,
    pub path: Seq<char>,
}

impl View for Remapping {
    type V = RemappingView;

    open spec fn view(&self) -> RemappingView {
        RemappingView {
            context: self.context.deep_view(),
            name: self.name@,
            path: self.path@,
        }
    }
}

impl DeepView for Remapping {
    type V = RemappingView;

    open spec fn deep_view(&self) -> RemappingView {
        self.view()
    }
}

/// The text with every leading `/` removed.
pub open spec fn trim_leading_slashes(s: Seq<char>) -> Seq<char>
    decreases s.len(),
{
    if s.len() > 0 && s[0] == '/' {
        trim_leading_slashes(s.drop_first())
    } else {
        s
    }
}

/// Trimming ignores a leading run of slashes.
proof fn lemma_trim_skip(s: Seq<char>, i: int)
    requires
        0 <= i <= s.len(),
        forall|j: int| 0 <= j < i ==> s[j] == '/',
    ensures
        trim_leading_slashes(s) == trim_leading_slashes(s.skip(i)),
    decreases i,
{
    if i > 0 {
        assert(s.drop_first() =~= s.skip(1));
        lemma_trim_skip(s.skip(1), i - 1);
        assert(s.skip(1).skip(i - 1) =~= s.skip(i));
    } else {
        assert(s.skip(0) =~= s);
    }
}

/// A remapping path re-rooted under the sources directory.
pub open spec fn joined_path(sources_path: Seq<char>, p: Seq<char>) -> Seq<char> {
    sources_path + seq!['/'] + trim_leading_slashes(p)
}

/// Joins `sources_path` and `p`, any leading `/` of `p` dropped.
pub fn join_under(sources_path: &str, p: &str) -> (r: String)
    ensures
        r@ == joined_path(sources_path@, p@),
{
    let len = p.unicode_len();
    let mut i: usize = 0;
    while i < len && p.get_char(i) == '/'
        invariant
            len == p@.len(),
            i <= len,
            forall|j: int| 0 <= j < i ==> p@[j] == '/',
        decreases len - i,
    {
        i += 1;
    }
    let trimmed = p.substring_char(i, len);
    proof {
        lemma_trim_skip(p@, i as int);
        assert(trimmed@ =~= p@.skip(i as int));
        if i < len {
            assert(p@.skip(i as int)[0] == p@[i as int]);
        } else {
            assert(p@.skip(i as int) =~= Seq::<char>::empty());
        }
    }
    let mut out = String::from_str(sources_path);
    out.append("/");
    out.append(trimmed);
    proof {
        reveal_strlit("/");
        assert(out@ =~= joined_path(sources_path@, p@));
    }
    out
}

/// A remapping after re-rooting.
pub open spec fn rerooted(m: RemappingView, sources_path: Seq<char>) -> RemappingView {
    RemappingView { context: m.context, name: m.name, path: joined_path(sources_path, m.path) }
}

/// The standard-library remapping supplied when the settings carry
/// none.
pub open spec fn oz_remapping(sources_path: Seq<char>) -> RemappingView {
    RemappingView {
        context: Option::None,
        name: "@openzeppelin/"@,
        path: joined_path(sources_path, "@openzeppelin"@),
    }
}

/// Re-roots every remapping under the sources path, and appends the
/// `@openzeppelin/` remapping iff no remapping's prefix already starts
/// with it.
pub fn normalize_remappings(remappings: Vec<Remapping>, sources_path: &str) -> (r: Vec<Remapping>)
    ensures
        ({
            let base = remappings.deep_view().map_values(
                |m: RemappingView| rerooted(m, sources_path@),
            );
            if exists|i: int|
                0 <= i < remappings.deep_view().len() && "@openzeppelin/"@.is_prefix_of(
                    (#[trigger] remappings.deep_view()[i]).name,
                ) {
                r.deep_view() == base
            } else {
                r.deep_view() == base.push(oz_remapping(sources_path@))
            }
        }),
{
    let ghost mv = remappings.deep_view();
    let mut out: Vec<Remapping> = Vec::new();
    let mut has_oz = false;
    let mut i: usize = 0;
    while i < remappings.len()
        invariant
            mv == remappings.deep_view(),
            i <= remappings@.len(),
            mv.len() == remappings@.len(),
            out.deep_view().len() == i,
            forall|j: int|
                0 <= j < i ==> #[trigger] out.deep_view()[j] == rerooted(mv[j], sources_path@),
            has_oz == exists|j: int|
                0 <= j < i && "@openzeppelin/"@.is_prefix_of((#[trigger] mv[j]).name),
        decreases remappings@.len() - i,
    {
        let ghost out0 = out.deep_view();
        let m = &remappings[i];
        proof {
            assert(m.deep_view() == mv[i as int]);
        }
        if str_starts_with(m.name.as_str(), "@openzeppelin/") {
            has_oz = true;
        }
        let path = join_under(sources_path, m.path.as_str());
        out.push(
            Remapping { context: m.context.clone(), name: m.name.clone(), path },
        );
        proof {
            assert(out.deep_view()[i as int] == rerooted(mv[i as int], sources_path@));
            assert forall|j: int| 0 <= j < i implies #[trigger] out.deep_view()[j] == rerooted(
                mv[j],
                sources_path@,
            ) by {
                assert(out.deep_view()[j] == out0[j]);
            }
        }
        i += 1;
    }
    if !has_oz {
        let ghost out0 = out.deep_view();
        let path = join_under(sources_path, "@openzeppelin");
        out.push(
            Remapping { context: Option::None, name: String::from_str("@openzeppelin/"), path },
        );
        proof {
            assert(out.deep_view() =~= out0.push(oz_remapping(sources_path@)));
        }
    }
    proof {
        assert forall|j: int|
            0 <= j < mv.len() implies mv.map_values(
            |m: RemappingView| rerooted(m, sources_path@),
        )[j] == rerooted(mv[j], sources_path@) by {}
        assert(out.deep_view().subrange(0, mv.len() as int) =~= mv.map_values(
            |m: RemappingView| rerooted(m, sources_path@),
        ));
    }
    out
}

} // verus!
