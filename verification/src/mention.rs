//! The name under which a plugin is mentioned: its configured name spelled
//! the way its display name spells it.

use crate::text::{
    ascii_alnum, ascii_alpha, ascii_lower, ascii_lowercase, ascii_upper, ascii_uppercase,
    is_ascii_alnum, is_ascii_alpha, push_char, push_str,
};
use vstd::prelude::*;

verus! {

broadcast use vstd::string::group_string_axioms;

/// `-` and `_` separate the segments of a plugin name.
pub open spec fn is_name_separator(c: char) -> bool {
    c == '-' || c == '_'
}

/// Segments read so far and the segment being read.
pub struct SegmentState {
    pub done: Seq<(Seq<char>, Option<char>)>,
    pub current: Seq<char>,
}

pub open spec fn plugin_segment_step(st: SegmentState, c: char) -> SegmentState {
    if is_name_separator(c) {
        if st.current.len() > 0 {
            SegmentState { done: st.done.push((st.current, Some(c))), current: Seq::empty() }
        } else {
            st
        }
    } else {
        SegmentState { done: st.done, current: st.current.push(c) }
    }
}

pub open spec fn plugin_segment_run(s: Seq<char>) -> SegmentState
    decreases s.len(),
{
    if s.len() == 0 {
        SegmentState { done: Seq::empty(), current: Seq::empty() }
    } else {
        plugin_segment_step(plugin_segment_run(s.drop_last()), s.last())
    }
}

/// The non-empty runs between separators of a plugin name, each with the
/// separator that ends it (none for the last).
pub open spec fn plugin_segments(s: Seq<char>) -> Seq<(Seq<char>, Option<char>)> {
    let st = plugin_segment_run(s);
    if st.current.len() > 0 {
        st.done.push((st.current, None))
    } else {
        st.done
    }
}

pub open spec fn display_segment_step(st: (Seq<Seq<char>>, Seq<char>), c: char) -> (
    Seq<Seq<char>>,
    Seq<char>,
) {
    if is_ascii_alnum(c) {
        (st.0, st.1.push(c))
    } else if st.1.len() > 0 {
        (st.0.push(st.1), Seq::empty())
    } else {
        st
    }
}

pub open spec fn display_segment_run(s: Seq<char>) -> (Seq<Seq<char>>, Seq<char>)
    decreases s.len(),
{
    if s.len() == 0 {
        (Seq::empty(), Seq::empty())
    } else {
        display_segment_step(display_segment_run(s.drop_last()), s.last())
    }
}

/// The non-empty runs of ASCII letters and digits of a display name.
pub open spec fn display_segments(s: Seq<char>) -> Seq<Seq<char>> {
    let st = display_segment_run(s);
    if st.1.len() > 0 {
        st.0.push(st.1)
    } else {
        st.0
    }
}

/// `str::eq_ignore_ascii_case`.
pub open spec fn eq_ignore_ascii_case(a: Seq<char>, b: Seq<char>) -> bool {
    a.len() == b.len() && forall|i: int| 0 <= i < a.len() ==> ascii_lower(#[trigger] a[i])
        == ascii_lower(b[i])
}

pub open spec fn title_case_step(st: (Seq<char>, bool), c: char) -> (Seq<char>, bool) {
    if is_name_separator(c) {
        (st.0.push(c), true)
    } else if st.1 && is_ascii_alpha(c) {
        (st.0.push(ascii_upper(c)), false)
    } else {
        (st.0.push(c), false)
    }
}

pub open spec fn title_case_run(s: Seq<char>) -> (Seq<char>, bool)
    decreases s.len(),
{
    if s.len() == 0 {
        (Seq::empty(), true)
    } else {
        title_case_step(title_case_run(s.drop_last()), s.last())
    }
}

/// A plugin name with the first ASCII letter after the start and after each
/// separator raised to uppercase.
pub open spec fn title_cased(s: Seq<char>) -> Seq<char> {
    title_case_run(s).0
}

/// Whether each plugin segment matches its display segment, ignoring ASCII
/// case, with as many of one as of the other.
pub open spec fn segments_match(p: Seq<(Seq<char>, Option<char>)>, d: Seq<Seq<char>>) -> bool {
    p.len() == d.len() && forall|i: int| 0 <= i < p.len() ==> eq_ignore_ascii_case(
        #[trigger] p[i].0,
        d[i],
    )
}

/// The display segments joined by the plugin name's separators.
pub open spec fn joined_segments(p: Seq<(Seq<char>, Option<char>)>, d: Seq<Seq<char>>) -> Seq<char>
    decreases d.len(),
{
    if d.len() == 0 {
        Seq::empty()
    } else {
        let k = d.len() - 1;
        joined_segments(p, d.drop_last()) + d[k] + match p[k].1 {
            Some(c) => seq![c],
            None => Seq::empty(),
        }
    }
}

/// The mention name: the display name's spelling of the plugin name when
/// their segments match, else the title-cased plugin name.
pub open spec fn mention_name(plugin_name: Seq<char>, display_name: Seq<char>) -> Seq<char> {
    let p = plugin_segments(plugin_name);
    let d = display_segments(display_name);
    if segments_match(p, d) {
        joined_segments(p, d)
    } else {
        title_cased(plugin_name)
    }
}

/// The segments of a plugin name with the separator after each.
pub fn split_plugin_name_segments(plugin_name: &str) -> (r: Vec<(String, Option<char>)>)
    ensures
        r@.map_values(|s: (String, Option<char>)| (s.0@, s.1)) == plugin_segments(plugin_name@),
{
    let mut segments: Vec<(String, Option<char>)> = Vec::new();
    let mut current = String::new();
    let mut current_empty = true;
    proof {
        assert(plugin_name@.take(0) =~= Seq::<char>::empty());
        assert(segments@.map_values(|s: (String, Option<char>)| (s.0@, s.1)) =~= Seq::<
            (Seq<char>, Option<char>),
        >::empty());
    }
    for ch in it: plugin_name.chars()
        invariant
            it.seq() == plugin_name@,
            current_empty == (current@.len() == 0),
            plugin_segment_run(plugin_name@.take(it.index() as int)) == (SegmentState {
                done: segments@.map_values(|s: (String, Option<char>)| (s.0@, s.1)),
                current: current@,
            }),
    {
        proof {
            assert(plugin_name@.take(it.index() + 1).drop_last() =~= plugin_name@.take(
                it.index() as int,
            ));
        }
        let ghost before = segments@.map_values(|s: (String, Option<char>)| (s.0@, s.1));
        if ch == '-' || ch == '_' {
            if !current_empty {
                let ghost cur = current@;
                let taken = current;
                segments.push((taken, Some(ch)));
                current = String::new();
                current_empty = true;
                proof {
                    assert(segments@.map_values(|s: (String, Option<char>)| (s.0@, s.1))
                        =~= before.push((cur, Some(ch))));
                }
            }
        } else {
            push_char(&mut current, ch);
            current_empty = false;
        }
    }
    proof {
        assert(plugin_name@.take(plugin_name@.len() as int) =~= plugin_name@);
    }
    if !current_empty {
        let ghost before = segments@.map_values(|s: (String, Option<char>)| (s.0@, s.1));
        let ghost cur = current@;
        segments.push((current, None));
        proof {
            assert(segments@.map_values(|s: (String, Option<char>)| (s.0@, s.1)) =~= before.push(
                (cur, None),
            ));
        }
    }
    segments
}

/// The runs of ASCII letters and digits of a display name.
pub fn split_display_name_segments(display_name: &str) -> (r: Vec<String>)
    ensures
        r@.map_values(|s: String| s@) == display_segments(display_name@),
{
    let mut segments: Vec<String> = Vec::new();
    let mut current = String::new();
    let mut current_empty = true;
    proof {
        assert(display_name@.take(0) =~= Seq::<char>::empty());
        assert(segments@.map_values(|s: String| s@) =~= Seq::<Seq<char>>::empty());
    }
    for ch in it: display_name.chars()
        invariant
            it.seq() == display_name@,
            current_empty == (current@.len() == 0),
            display_segment_run(display_name@.take(it.index() as int)) == (
                segments@.map_values(|s: String| s@),
                current@,
            ),
    {
        proof {
            assert(display_name@.take(it.index() + 1).drop_last() =~= display_name@.take(
                it.index() as int,
            ));
        }
        let ghost before = segments@.map_values(|s: String| s@);
        if ascii_alnum(ch) {
            push_char(&mut current, ch);
            current_empty = false;
        } else if !current_empty {
            let ghost cur = current@;
            let taken = current;
            segments.push(taken);
            current = String::new();
            current_empty = true;
            proof {
                assert(segments@.map_values(|s: String| s@) =~= before.push(cur));
            }
        }
    }
    proof {
        assert(display_name@.take(display_name@.len() as int) =~= display_name@);
    }
    if !current_empty {
        let ghost before = segments@.map_values(|s: String| s@);
        let ghost cur = current@;
        segments.push(current);
        proof {
            assert(segments@.map_values(|s: String| s@) =~= before.push(cur));
        }
    }
    segments
}

/// The plugin name with the first ASCII letter of each segment uppercased.
pub fn title_case_plugin_name(plugin_name: &str) -> (r: String)
    ensures
        r@ == title_cased(plugin_name@),
{
    let mut result = String::new();
    let mut capitalize_next = true;
    proof {
        assert(plugin_name@.take(0) =~= Seq::<char>::empty());
    }
    for ch in it: plugin_name.chars()
        invariant
            it.seq() == plugin_name@,
            title_case_run(plugin_name@.take(it.index() as int)) == (result@, capitalize_next),
    {
        proof {
            assert(plugin_name@.take(it.index() + 1).drop_last() =~= plugin_name@.take(
                it.index() as int,
            ));
        }
        if ch == '-' || ch == '_' {
            capitalize_next = true;
            push_char(&mut result, ch);
        } else if capitalize_next && ascii_alpha(ch) {
            push_char(&mut result, ascii_uppercase(ch));
            capitalize_next = false;
        } else {
            push_char(&mut result, ch);
            capitalize_next = false;
        }
    }
    proof {
        assert(plugin_name@.take(plugin_name@.len() as int) =~= plugin_name@);
    }
    result
}

fn same_ignoring_ascii_case(a: &str, b: &str) -> (r: bool)
    ensures
        r == eq_ignore_ascii_case(a@, b@),
{
    let xs = crate::text::chars_of(a);
    let ys = crate::text::chars_of(b);
    if xs.len() != ys.len() {
        return false;
    }
    for i in 0..xs.len()
        invariant
            xs@ == a@,
            ys@ == b@,
            xs.len() == ys.len(),
            forall|j: int| 0 <= j < i ==> ascii_lower(#[trigger] a@[j]) == ascii_lower(b@[j]),
    {
        if ascii_lowercase(xs[i]) != ascii_lowercase(ys[i]) {
            return false;
        }
    }
    true
}

/// The name under which a plugin is mentioned.
pub fn plugin_mention_name(plugin_name: &str, display_name: &str) -> (r: String)
    ensures
        r@ == mention_name(plugin_name@, display_name@),
{
    let plugin_segments = split_plugin_name_segments(plugin_name);
    let display_segments = split_display_name_segments(display_name);
    let ghost p = plugin_segments@.map_values(|s: (String, Option<char>)| (s.0@, s.1));
    let ghost d = display_segments@.map_values(|s: String| s@);
    let mut matched = plugin_segments.len() == display_segments.len();
    if matched {
        let mut i: usize = 0;
        while i < plugin_segments.len()
            invariant
                plugin_segments.len() == display_segments.len(),
                p == plugin_segments@.map_values(|s: (String, Option<char>)| (s.0@, s.1)),
                d == display_segments@.map_values(|s: String| s@),
                i <= plugin_segments.len(),
                matched == forall|j: int| 0 <= j < i ==> eq_ignore_ascii_case(#[trigger] p[j].0, d[j]),
            decreases plugin_segments.len() - i,
        {
            proof {
                assert(p[i as int].0 == plugin_segments@[i as int].0@);
                assert(d[i as int] == display_segments@[i as int]@);
            }
            if !same_ignoring_ascii_case(
                plugin_segments[i].0.as_str(),
                display_segments[i].as_str(),
            ) {
                matched = false;
            }
            i = i + 1;
        }
    }
    if matched {
        let mut result = String::new();
        let mut i: usize = 0;
        proof {
            assert(d.take(0) =~= Seq::<Seq<char>>::empty());
        }
        while i < display_segments.len()
            invariant
                plugin_segments.len() == display_segments.len(),
                p == plugin_segments@.map_values(|s: (String, Option<char>)| (s.0@, s.1)),
                d == display_segments@.map_values(|s: String| s@),
                i <= display_segments.len(),
                result@ == joined_segments(p, d.take(i as int)),
            decreases display_segments.len() - i,
        {
            proof {
                assert(d.take(i + 1).drop_last() =~= d.take(i as int));
                assert(d.take(i + 1)[i as int] == display_segments@[i as int]@);
                assert(p[i as int] == (plugin_segments@[i as int].0@, plugin_segments@[i as int].1));
            }
            push_str(&mut result, display_segments[i].as_str());
            match plugin_segments[i].1 {
                Some(separator) => push_char(&mut result, separator),
                None => {},
            }
            proof {
                let sep: Seq<char> = match p[i as int].1 {
                    Some(c) => seq![c],
                    None => Seq::empty(),
                };
                assert(joined_segments(p, d.take(i + 1)) == joined_segments(p, d.take(i as int))
                    + d[i as int] + sep);
                assert(result@ =~= joined_segments(p, d.take(i as int)) + d[i as int] + sep);
            }
            i = i + 1;
        }
        proof {
            assert(d.take(display_segments.len() as int) =~= d);
        }
        return result;
    }
    title_case_plugin_name(plugin_name)
}

} // verus!
