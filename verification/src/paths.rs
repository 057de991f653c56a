//! Paths and file names as plain text.
//!
//! The output layout is defined on text: a child is placed below its parent by
//! writing the parent, one separator and the child. A file is a template if
//! its path ends in the template suffix, and it is rendered to the path
//! without that suffix.

use vstd::prelude::*;
use vstd::string::StringExecFns;

verus! {

/// The separator between the components of a path.
pub open spec fn separator() -> Seq<char> {
    seq!['/']
}

/// The path of `child` below `base`.
pub open spec fn joined(base: Seq<char>, child: Seq<char>) -> Seq<char> {
    base + separator() + child
}

/// Places `child` below `base`.
pub fn join(base: &str, child: &str) -> (path: String)
    ensures
        path@ == joined(base@, child@),
{
    proof {
        reveal_strlit("/");
    }
    let mut path = String::from_str(base);
    path.append("/");
    path.append(child);
    assert("/"@ =~= separator());
    path
}

/// `path` is `dir` itself or lies below it.
pub open spec fn lies_in(dir: Seq<char>, path: Seq<char>) -> bool {
    ||| path == dir
    ||| dir.len() < path.len() && path.take(dir.len() as int + 1) == dir + separator()
}

/// What is placed below a directory lies in it, and so does what is placed
/// below that.
pub proof fn lemma_joined_lies_in(dir: Seq<char>, child: Seq<char>, below: Seq<char>)
    ensures
        lies_in(dir, joined(dir, child)),
        lies_in(dir, joined(joined(dir, child), below)),
{
    let lead = dir + separator();
    assert(joined(dir, child).take(dir.len() as int + 1) =~= lead);
    assert(joined(joined(dir, child), below).take(dir.len() as int + 1) =~= lead);
}

/// Different children lie at different paths below the same parent.
pub proof fn lemma_joined_injective(base: Seq<char>, first: Seq<char>, second: Seq<char>)
    requires
        joined(base, first) == joined(base, second),
    ensures
        first == second,
{
    let lead = base + separator();
    assert(joined(base, first) =~= lead + first);
    assert(joined(base, second) =~= lead + second);
    assert((lead + first).len() == lead.len() + first.len());
    assert((lead + second).len() == lead.len() + second.len());
    assert forall|i: int| 0 <= i < first.len() implies first[i] == second[i] by {
        assert(first[i] == (lead + first)[lead.len() + i]);
        assert(second[i] == (lead + second)[lead.len() + i]);
    }
    assert(first =~= second);
}

/// The end of the name of a file that is rendered and not copied: `.j2`.
pub open spec fn template_suffix() -> Seq<char> {
    seq!['.', 'j', '2']
}

/// `text` ends with `suffix`.
pub open spec fn has_suffix(text: Seq<char>, suffix: Seq<char>) -> bool {
    &&& suffix.len() <= text.len()
    &&& text.subrange(text.len() - suffix.len(), text.len() as int) == suffix
}

/// The path names a template.
pub open spec fn is_template_path(path: Seq<char>) -> bool {
    has_suffix(path, template_suffix())
}

/// The path to which the file at `path` is rendered or copied: `path` without
/// the template suffix if it has it, else `path`.
pub open spec fn rendered_path(path: Seq<char>) -> Seq<char> {
    if is_template_path(path) {
        path.subrange(0, path.len() - template_suffix().len())
    } else {
        path
    }
}

/// Tells whether the path names a template.
pub fn is_template(path: &str) -> (templated: bool)
    ensures
        templated == is_template_path(path@),
{
    let length = path.unicode_len();
    if length < 3 {
        return false;
    }
    let templated = path.get_char(length - 3) == '.' && path.get_char(length - 2) == 'j'
        && path.get_char(length - 1) == '2';
    proof {
        let end = path@.subrange(path@.len() - 3, path@.len() as int);
        if templated {
            assert(end =~= template_suffix());
        } else {
            assert(end[0] == path@[length - 3]);
            assert(end[1] == path@[length - 2]);
            assert(end[2] == path@[length - 1]);
        }
    }
    templated
}

/// The path to which the file at `path` is rendered or copied.
pub fn without_template_suffix(path: &str) -> (stripped: String)
    ensures
        stripped@ == rendered_path(path@),
{
    if is_template(path) {
        let length = path.unicode_len();
        String::from_str(path.substring_char(0, length - 3))
    } else {
        String::from_str(path)
    }
}

} // verus!
