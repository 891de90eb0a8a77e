//! Slash-separated paths: normalization and containment.

use vstd::prelude::*;

verus! {

/// Segments of a path that survive normalization, given the segments kept so far
/// and the segment being read: empty segments and `.` segments are dropped.
pub open spec fn keep_segment(kept: Seq<Seq<char>>, segment: Seq<char>) -> Seq<Seq<char>> {
    if segment.len() == 0 || segment == seq!['.'] {
        kept
    } else {
        kept.push(segment)
    }
}

/// Reads `text` left to right: the segments kept so far, and the segment that the
/// last `/` opened and that no `/` has closed yet.
pub open spec fn scan_segments(text: Seq<char>) -> (Seq<Seq<char>>, Seq<char>)
    decreases text.len(),
{
    if text.len() == 0 {
        (Seq::empty(), Seq::empty())
    } else {
        let (kept, current) = scan_segments(text.drop_last());
        if text.last() == '/' {
            (keep_segment(kept, current), Seq::empty())
        } else {
            (kept, current.push(text.last()))
        }
    }
}

/// The non-empty segments of `text`, other than `.`, in order.
pub open spec fn path_segments(text: Seq<char>) -> Seq<Seq<char>> {
    let (kept, current) = scan_segments(text);
    keep_segment(kept, current)
}

/// `/` in front of each segment, concatenated.
pub open spec fn slash_join(segments: Seq<Seq<char>>) -> Seq<char>
    decreases segments.len(),
{
    if segments.len() == 0 {
        Seq::empty()
    } else {
        slash_join(segments.drop_last()) + seq!['/'] + segments.last()
    }
}

/// The normal form of a path: absolute, with no empty or `.` segment and no
/// trailing slash; `/` when no segment remains.
pub open spec fn normal_path(text: Seq<char>) -> Seq<char> {
    let segments = path_segments(text);
    if segments.len() == 0 {
        seq!['/']
    } else {
        slash_join(segments)
    }
}

/// `left` contains `right` when `left` is the root, the same path, or a proper
/// ancestor of `right` that ends where a `/` of `right` begins.
pub open spec fn path_contains_spec(left: Seq<char>, right: Seq<char>) -> bool {
    ||| left == seq!['/']
    ||| left == right
    ||| (right.len() > left.len() && right.subrange(0, left.len() as int) == left
        && right[left.len() as int] == '/')
}

/// A path that begins with `/`.
pub open spec fn is_absolute(text: Seq<char>) -> bool {
    text.len() > 0 && text[0] == '/'
}

proof fn lemma_slash_join_absolute(segments: Seq<Seq<char>>)
    requires
        segments.len() > 0,
    ensures
        is_absolute(slash_join(segments)),
    decreases segments.len(),
{
    let prefix = slash_join(segments.drop_last());
    if segments.len() > 1 {
        lemma_slash_join_absolute(segments.drop_last());
        assert((prefix + seq!['/'] + segments.last())[0] == prefix[0]);
    } else {
        assert(prefix.len() == 0);
        assert((prefix + seq!['/'] + segments.last())[0] == '/');
    }
}

/// Every normal path is absolute.
pub proof fn lemma_normal_path_absolute(text: Seq<char>)
    ensures
        is_absolute(normal_path(text)),
{
    if path_segments(text).len() > 0 {
        lemma_slash_join_absolute(path_segments(text));
    }
}

/// Containment is transitive between absolute paths.
pub proof fn lemma_path_contains_transitive(left: Seq<char>, middle: Seq<char>, right: Seq<char>)
    requires
        is_absolute(left),
        is_absolute(middle),
        path_contains_spec(left, middle),
        path_contains_spec(middle, right),
    ensures
        path_contains_spec(left, right),
{
    if left == seq!['/'] || left == middle {
    } else if middle == seq!['/'] {
        assert(middle.len() > left.len());
    } else if middle == right {
    } else {
        assert(right.subrange(0, middle.len() as int).subrange(0, left.len() as int)
            =~= right.subrange(0, left.len() as int));
        assert(right[left.len() as int] == middle[left.len() as int]);
    }
}

/// Containment between absolute paths is antisymmetric.
pub proof fn lemma_path_contains_antisymmetric(left: Seq<char>, right: Seq<char>)
    requires
        is_absolute(left),
        is_absolute(right),
        path_contains_spec(left, right),
        path_contains_spec(right, left),
    ensures
        left == right,
{
    if left == seq!['/'] {
        if right != left {
            assert(right.len() >= 1);
            if right.len() == 1 {
                assert(right =~= seq!['/']);
            }
        }
    }
}

/// Whether `text` begins with `prefix`.
pub fn has_prefix(text: &str, prefix: &str) -> (result: bool)
    ensures
        result == (prefix@.len() <= text@.len() && text@.subrange(0, prefix@.len() as int)
            == prefix@),
{
    let text_len = text.unicode_len();
    let prefix_len = prefix.unicode_len();
    if prefix_len > text_len {
        return false;
    }
    let mut index: usize = 0;
    while index < prefix_len
        invariant
            prefix_len == prefix@.len(),
            text_len == text@.len(),
            prefix_len <= text_len,
            index <= prefix_len,
            text@.subrange(0, index as int) == prefix@.subrange(0, index as int),
        decreases prefix_len - index,
    {
        if text.get_char(index) != prefix.get_char(index) {
            assert(text@.subrange(0, prefix_len as int)[index as int] != prefix@[index as int]);
            return false;
        }
        assert(text@.subrange(0, index as int + 1) =~= text@.subrange(0, index as int).push(
            text@[index as int],
        ));
        assert(prefix@.subrange(0, index as int + 1) =~= prefix@.subrange(0, index as int).push(
            prefix@[index as int],
        ));
        index = index + 1;
    }
    assert(prefix@.subrange(0, prefix_len as int) =~= prefix@);
    true
}

/// Whether `text` is the root path `/`.
pub fn is_root(text: &str) -> (result: bool)
    ensures
        result == (text@ == seq!['/']),
{
    if text.unicode_len() != 1 {
        return false;
    }
    let first = text.get_char(0);
    if first == '/' {
        assert(text@ =~= seq!['/']);
        true
    } else {
        false
    }
}

/// Whether the two texts hold the same characters.
pub fn same_text(left: &str, right: &str) -> (result: bool)
    ensures
        result == (left@ == right@),
{
    let left_len = left.unicode_len();
    if left_len != right.unicode_len() {
        return false;
    }
    let prefix = has_prefix(left, right);
    assert(left@.subrange(0, left_len as int) =~= left@);
    prefix
}

/// Whether path `left` contains path `right` (see `path_contains_spec`).
pub fn path_contains(left: &str, right: &str) -> (result: bool)
    ensures
        result == path_contains_spec(left@, right@),
{
    if is_root(left) {
        return true;
    }
    if same_text(left, right) {
        return true;
    }
    let left_len = left.unicode_len();
    let right_len = right.unicode_len();
    if right_len > left_len && has_prefix(right, left) {
        right.get_char(left_len) == '/'
    } else {
        false
    }
}

/// The normal form of a path (see `normal_path`).
pub fn normalize_path(text: &str) -> (normal: String)
    ensures
        normal@ == normal_path(text@),
{
    let length = text.unicode_len();
    let mut kept: Vec<String> = Vec::new();
    let mut current = String::new();
    let mut index: usize = 0;
    while index < length
        invariant
            length == text@.len(),
            index <= length,
            scan_segments(text@.subrange(0, index as int)) == (
                kept@.map_values(|segment: String| segment@),
                current@,
            ),
        decreases length - index,
    {
        let ghost before = text@.subrange(0, index as int);
        assert(text@.subrange(0, index as int + 1).drop_last() =~= before);
        let character = text.get_char(index);
        if character == '/' {
            let ghost old_kept = kept@.map_values(|segment: String| segment@);
            let keep = if current.unicode_len() == 0 {
                false
            } else {
                !same_text(current.as_str(), ".")
            };
            proof {
                reveal_strlit(".");
                assert(seq!['.'] =~= "."@);
            }
            if keep {
                kept.push(current);
                assert(kept@.map_values(|segment: String| segment@) =~= old_kept.push(
                    current@,
                ));
            }
            current = String::new();
        } else {
            let piece = text.substring_char(index, index + 1);
            current.append(piece);
            assert(piece@ =~= seq![character]);
        }
        index = index + 1;
    }
    assert(text@.subrange(0, length as int) =~= text@);
    let ghost scanned_kept = kept@.map_values(|segment: String| segment@);
    let keep_last = if current.unicode_len() == 0 {
        false
    } else {
        !same_text(current.as_str(), ".")
    };
    proof {
        reveal_strlit(".");
        assert(seq!['.'] =~= "."@);
    }
    if keep_last {
        kept.push(current);
        assert(kept@.map_values(|segment: String| segment@) =~= scanned_kept.push(current@));
    }
    assert(kept@.map_values(|segment: String| segment@) == path_segments(text@));
    proof {
        reveal_strlit("/");
    }
    if kept.len() == 0 {
        let root = String::from_str("/");
        assert(root@ =~= seq!['/']);
        return root;
    }
    let mut normal = String::new();
    let mut position: usize = 0;
    while position < kept.len()
        invariant
            position <= kept@.len(),
            normal@ == slash_join(kept@.map_values(|segment: String| segment@).subrange(
                0,
                position as int,
            )),
        decreases kept.len() - position,
    {
        let ghost segments = kept@.map_values(|segment: String| segment@);
        assert(segments.subrange(0, position as int + 1).drop_last() =~= segments.subrange(
            0,
            position as int,
        ));
        proof {
            reveal_strlit("/");
        }
        let ghost before = normal@;
        normal.append("/");
        normal.append(kept[position].as_str());
        assert(normal@ =~= before + seq!['/'] + segments[position as int]);
        position = position + 1;
    }
    assert(kept@.map_values(|segment: String| segment@).subrange(0, kept@.len() as int)
        =~= kept@.map_values(|segment: String| segment@));
    normal
}

} // verus!
