//! The structured-text renderer: space-joined `key="value"` (strings) and
//! `key=value` (numbers) pairs in property order, the message property
//! last, with no leading or trailing whitespace.
//!
//! ```text
//! timeStamp="2021-03-29T15:16:25.683809406+00:00" level="INFO" msg="logging a thing"
//! ```

use vstd::prelude::*;
use vstd::string::*;

use crate::event::Event;
use crate::formatters::TacitFormatter;
use crate::formatters::pairs_view;
use crate::properties::PropValue;
use crate::properties::Property;
use crate::properties::StaticProperty;
use crate::properties::resolves_to;

verus! {

/// The decimal digit character for `d`.
pub open spec fn digit_char(d: int) -> char {
    if d == 0 {
        '0'
    } else if d == 1 {
        '1'
    } else if d == 2 {
        '2'
    } else if d == 3 {
        '3'
    } else if d == 4 {
        '4'
    } else if d == 5 {
        '5'
    } else if d == 6 {
        '6'
    } else if d == 7 {
        '7'
    } else if d == 8 {
        '8'
    } else {
        '9'
    }
}

/// The decimal digits of `n`, most significant first.
pub open spec fn dec_digits(n: nat) -> Seq<char>
    decreases n,
{
    if n < 10 {
        seq![digit_char(n as int)]
    } else {
        dec_digits(n / 10).push(digit_char((n % 10) as int))
    }
}

/// The decimal rendering of an integer, with a leading minus sign when it
/// is negative.
pub open spec fn dec_i64(n: int) -> Seq<char> {
    if n < 0 {
        seq!['-'] + dec_digits((-n) as nat)
    } else {
        dec_digits(n as nat)
    }
}

/// A property value as structured text: strings quoted (verbatim, no
/// escaping), numbers bare, null the empty string.
pub open spec fn simple_value_spec(v: PropValue) -> Seq<char> {
    match v {
        PropValue::Str(s) => seq!['"'] + s + seq!['"'],
        PropValue::Num(n) => dec_i64(n),
        PropValue::Null => Seq::empty(),
    }
}

/// One `name=value` segment.
pub open spec fn segment(name: Seq<char>, v: PropValue) -> Seq<char> {
    name + "="@ + simple_value_spec(v)
}

/// The segments of the properties that are emitted: one per property in
/// order, null-valued properties dropped when `ignore_empty` is set.
pub open spec fn kept_segments(props: Seq<(Seq<char>, PropValue)>, ignore_empty: bool) -> Seq<
    Seq<char>,
>
    decreases props.len(),
{
    if props.len() == 0 {
        Seq::empty()
    } else {
        let head: Seq<Seq<char>> = if ignore_empty && props[0].1 is Null {
            Seq::empty()
        } else {
            seq![segment(props[0].0, props[0].1)]
        };
        head + kept_segments(props.drop_first(), ignore_empty)
    }
}

/// Segments joined with single spaces.
pub open spec fn join_segments(parts: Seq<Seq<char>>) -> Seq<char>
    decreases parts.len(),
{
    if parts.len() == 0 {
        Seq::empty()
    } else if parts.len() == 1 {
        parts[0]
    } else {
        join_segments(parts.drop_last()) + " "@ + parts.last()
    }
}

/// The whole structured-text line: the kept property segments, then the
/// quoted message under `msg_prop`, space-joined.
pub open spec fn simple_line(
    msg_prop: Seq<char>,
    msg: Seq<char>,
    props: Seq<(Seq<char>, PropValue)>,
    ignore_empty: bool,
) -> Seq<char> {
    join_segments(
        kept_segments(props, ignore_empty).push(msg_prop + "=\""@ + msg + "\""@),
    )
}

/// Appending one pair appends its segment, or nothing when it is dropped.
proof fn lemma_kept_segments_snoc(
    props: Seq<(Seq<char>, PropValue)>,
    x: (Seq<char>, PropValue),
    ignore_empty: bool,
)
    ensures
        kept_segments(props.push(x), ignore_empty) == kept_segments(props, ignore_empty) + (
        if ignore_empty && x.1 is Null {
            Seq::<Seq<char>>::empty()
        } else {
            seq![segment(x.0, x.1)]
        }),
    decreases props.len(),
{
    let tail: Seq<Seq<char>> = if ignore_empty && x.1 is Null {
        Seq::empty()
    } else {
        seq![segment(x.0, x.1)]
    };
    if props.len() == 0 {
        assert(props.push(x)[0] == x);
        let rest = props.push(x).drop_first();
        assert(rest =~= Seq::<(Seq<char>, PropValue)>::empty());
        assert(kept_segments(rest, ignore_empty) == Seq::<Seq<char>>::empty());
        assert(kept_segments(props, ignore_empty) == Seq::<Seq<char>>::empty());
        if ignore_empty && x.1 is Null {
            assert(kept_segments(props.push(x), ignore_empty) =~= kept_segments(
                props,
                ignore_empty,
            ) + tail);
        } else {
            assert(kept_segments(props.push(x), ignore_empty) == seq![
                segment(props.push(x)[0].0, props.push(x)[0].1),
            ] + kept_segments(rest, ignore_empty));
            assert(segment(props.push(x)[0].0, props.push(x)[0].1) == segment(x.0, x.1));
            assert(kept_segments(props.push(x), ignore_empty) =~= kept_segments(
                props,
                ignore_empty,
            ) + tail);
        }
    } else {
        assert(props.push(x)[0] == props[0]);
        assert(props.push(x).drop_first() =~= props.drop_first().push(x));
        lemma_kept_segments_snoc(props.drop_first(), x, ignore_empty);
        assert(kept_segments(props.push(x), ignore_empty) =~= kept_segments(props, ignore_empty)
            + tail);
    }
}

/// Joining one more segment appends a space and the segment, except onto
/// an empty list.
proof fn lemma_join_snoc(parts: Seq<Seq<char>>, x: Seq<char>)
    ensures
        join_segments(parts.push(x)) == if parts.len() == 0 {
            x
        } else {
            join_segments(parts) + " "@ + x
        },
{
    if parts.len() == 0 {
        assert(join_segments(parts.push(x)) == parts.push(x)[0]);
    } else {
        assert(parts.push(x).drop_last() =~= parts);
        assert(parts.push(x).last() == x);
    }
}

/// The decimal digit for `d` as a one-character string.
fn digit_str(d: u64) -> (r: &'static str)
    requires
        d < 10,
    ensures
        r@ == seq![digit_char(d as int)],
{
    proof {
        reveal_strlit("0");
        reveal_strlit("1");
        reveal_strlit("2");
        reveal_strlit("3");
        reveal_strlit("4");
        reveal_strlit("5");
        reveal_strlit("6");
        reveal_strlit("7");
        reveal_strlit("8");
        reveal_strlit("9");
    }
    let r: &'static str = if d == 0 {
        "0"
    } else if d == 1 {
        "1"
    } else if d == 2 {
        "2"
    } else if d == 3 {
        "3"
    } else if d == 4 {
        "4"
    } else if d == 5 {
        "5"
    } else if d == 6 {
        "6"
    } else if d == 7 {
        "7"
    } else if d == 8 {
        "8"
    } else {
        "9"
    };
    proof {
        assert(r@ =~= seq![digit_char(d as int)]);
    }
    r
}

/// The decimal digits of `n`.
fn u64_dec(n: u64) -> (r: String)
    ensures
        r@ == dec_digits(n as nat),
    decreases n,
{
    if n < 10 {
        digit_str(n).to_owned()
    } else {
        let mut s = u64_dec(n / 10);
        s.append(digit_str(n % 10));
        proof {
            assert(s@ =~= dec_digits(n as nat));
        }
        s
    }
}

/// The decimal rendering of `n`.
fn i64_dec_str(n: i64) -> (r: String)
    ensures
        r@ == dec_i64(n as int),
{
    if n >= 0 {
        u64_dec(n as u64)
    } else {
        let mag: u64 = if n == i64::MIN {
            9223372036854775808u64
        } else {
            (-n) as u64
        };
        proof {
            assert(mag as int == -(n as int));
        }
        let mut s = String::new();
        s.append("-");
        let digits = u64_dec(mag);
        s.append(digits.as_str());
        proof {
            reveal_strlit("-");
            assert(s@ =~= dec_i64(n as int));
        }
        s
    }
}

impl StaticProperty {
    /// This value as structured text: strings quoted, numbers bare, null
    /// the empty string.
    pub fn simple_value(&self) -> (r: String)
        ensures
            r@ == simple_value_spec(self@),
    {
        match self {
            StaticProperty::String(v) => {
                let mut s = String::new();
                s.append("\"");
                s.append(v.as_str());
                s.append("\"");
                proof {
                    reveal_strlit("\"");
                    assert(s@ =~= simple_value_spec(self@));
                }
                s
            },
            StaticProperty::Number(n) => i64_dec_str(*n),
            StaticProperty::Null => String::new(),
        }
    }
}

impl Property {
    /// This property, resolved against `event`, as structured text.
    pub fn simple_value(&self, event: &Event) -> (r: String)
        ensures
            exists|v: PropValue| #[trigger] resolves_to(*self, event.level, v) && r@
                == simple_value_spec(v),
    {
        let p = self.resolve(event);
        let r = p.simple_value();
        proof {
            assert(resolves_to(*self, event.level, p@) && r@ == simple_value_spec(p@));
        }
        r
    }
}

/// The structured-text renderer.
pub struct SimpleFormatter {}

impl core::default::Default for SimpleFormatter {
    fn default() -> (r: SimpleFormatter)
        ensures
            r == (SimpleFormatter {  }),
    {
        SimpleFormatter {  }
    }
}

impl TacitFormatter for SimpleFormatter {
    /// This renderer emits the kept property segments and the quoted
    /// message, space-joined; it does not use the event's ad-hoc pairs.
    open spec fn spec_render(
        msg_prop: Seq<char>,
        msg: Seq<char>,
        props: Seq<(Seq<char>, PropValue)>,
        extras: Seq<(Seq<char>, PropValue)>,
        ignore_empty: bool,
    ) -> Seq<char> {
        simple_line(msg_prop, msg, props, ignore_empty)
    }

    fn render(
        &self,
        msg_prop: &str,
        msg: &str,
        props: &Vec<(String, StaticProperty)>,
        extras: &Vec<(String, StaticProperty)>,
        ignore_empty: bool,
    ) -> (r: String) {
        let ghost pv = pairs_view(props@);
        let mut item = String::new();
        let mut first: bool = true;
        let mut i: usize = 0;
        proof {
            assert(pv.take(0) =~= Seq::<(Seq<char>, PropValue)>::empty());
        }
        while i < props.len()
            invariant
                i <= props@.len(),
                pv == pairs_view(props@),
                first == (kept_segments(pv.take(i as int), ignore_empty).len() == 0),
                item@ == join_segments(kept_segments(pv.take(i as int), ignore_empty)),
            decreases props@.len() - i,
        {
            let ghost segs = kept_segments(pv.take(i as int), ignore_empty);
            proof {
                assert(pv.take(i as int).push(pv[i as int]) =~= pv.take(i as int + 1));
                lemma_kept_segments_snoc(pv.take(i as int), pv[i as int], ignore_empty);
            }
            let keep = !(ignore_empty && props[i].1.is_null());
            if keep {
                proof {
                    lemma_join_snoc(segs, segment(pv[i as int].0, pv[i as int].1));
                }
                if !first {
                    item.append(" ");
                }
                item.append(props[i].0.as_str());
                item.append("=");
                let val = props[i].1.simple_value();
                item.append(val.as_str());
                first = false;
                proof {
                    assert(kept_segments(pv.take(i as int + 1), ignore_empty) =~= segs.push(
                        segment(pv[i as int].0, pv[i as int].1),
                    ));
                    assert(item@ =~= join_segments(
                        kept_segments(pv.take(i as int + 1), ignore_empty),
                    ));
                }
            } else {
                proof {
                    assert(kept_segments(pv.take(i as int + 1), ignore_empty) =~= segs);
                }
            }
            i = i + 1;
        }
        proof {
            assert(pv.take(props@.len() as int) =~= pv);
            lemma_join_snoc(kept_segments(pv, ignore_empty), msg_prop@ + "=\""@ + msg@ + "\""@);
        }
        if !first {
            item.append(" ");
        }
        item.append(msg_prop);
        item.append("=\"");
        item.append(msg);
        item.append("\"");
        proof {
            assert(item@ =~= simple_line(msg_prop@, msg@, pv, ignore_empty));
        }
        item
    }
}

/// The kept segments of a concatenation are those of the parts, in order.
pub(crate) proof fn lemma_kept_segments_concat(
    x: Seq<(Seq<char>, PropValue)>,
    y: Seq<(Seq<char>, PropValue)>,
    ignore_empty: bool,
)
    ensures
        kept_segments(x + y, ignore_empty) == kept_segments(x, ignore_empty) + kept_segments(
            y,
            ignore_empty,
        ),
    decreases x.len(),
{
    if x.len() == 0 {
        assert(x + y =~= y);
        assert(kept_segments(x, ignore_empty) + kept_segments(y, ignore_empty) =~= kept_segments(
            y,
            ignore_empty,
        ));
    } else {
        assert((x + y)[0] == x[0]);
        assert((x + y).drop_first() =~= x.drop_first() + y);
        lemma_kept_segments_concat(x.drop_first(), y, ignore_empty);
        assert(kept_segments(x + y, ignore_empty) =~= kept_segments(x, ignore_empty)
            + kept_segments(y, ignore_empty));
    }
}

} // verus!

