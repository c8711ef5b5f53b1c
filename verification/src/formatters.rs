//! Renderers: each turns an event plus its resolved properties into one
//! serialized line for its representation.

use vstd::prelude::*;


mod json_formatter;
mod simple_formatter;







pub use json_formatter::JsonFormatter;
pub use json_formatter::json_object_text;
pub use json_formatter::object_entries;
pub use json_formatter::object_model;
pub use json_formatter::upsert;
pub use json_formatter::upsert_all;
pub use json_formatter::value_model;
pub use simple_formatter::SimpleFormatter;
pub use simple_formatter::dec_i64;
pub use simple_formatter::join_segments;
pub use simple_formatter::kept_segments;
pub use simple_formatter::segment;
pub use simple_formatter::simple_line;
pub use simple_formatter::simple_value_spec;

use crate::properties::PropValue;
use crate::properties::StaticProperty;

verus! {

/// The (name, value) pairs of a resolved property list, by value.
pub open spec fn pairs_view(s: Seq<(String, StaticProperty)>) -> Seq<(Seq<char>, PropValue)> {
    s.map_values(|e: (String, StaticProperty)| (e.0@, e.1@))
}

/// A renderer. `spec_render` names the exact line the renderer produces
/// from an event's message, its resolved properties and its ad-hoc pairs;
/// `render` produces it.
pub trait TacitFormatter: Sized + core::default::Default + Send + Sync {
    /// The line rendered from a message (standing under the property name
    /// `msg_prop`), resolved properties in registration order, and the
    /// event's ad-hoc pairs. With `ignore_empty`, null-valued properties
    /// are suppressed entirely.
    spec fn spec_render(
        msg_prop: Seq<char>,
        msg: Seq<char>,
        props: Seq<(Seq<char>, PropValue)>,
        extras: Seq<(Seq<char>, PropValue)>,
        ignore_empty: bool,
    ) -> Seq<char>;

    /// Render one event: a pure function of its inputs that does not fail
    /// on well-formed input.
    fn render(
        &self,
        msg_prop: &str,
        msg: &str,
        props: &Vec<(String, StaticProperty)>,
        extras: &Vec<(String, StaticProperty)>,
        ignore_empty: bool,
    ) -> (r: String)
        ensures
            r@ == Self::spec_render(
                msg_prop@,
                msg@,
                pairs_view(props@),
                pairs_view(extras@),
                ignore_empty,
            ),
    ;
}

/// LAW: property shadowing. Registering `name` with value `a` and later
/// with value `b` (and never again afterwards, nor among the event's
/// ad-hoc pairs) makes the object rendering carry a single binding of
/// `name`, to `b`; the structured text keeps both segments, `a`'s before
/// `b`'s, in registration order. Stated without `ignore_empty`, under
/// which null values are dropped altogether.
pub proof fn lemma_property_shadowing(
    msg_prop: Seq<char>,
    msg: Seq<char>,
    s1: Seq<(Seq<char>, PropValue)>,
    s2: Seq<(Seq<char>, PropValue)>,
    s3: Seq<(Seq<char>, PropValue)>,
    name: Seq<char>,
    a: PropValue,
    b: PropValue,
    extras: Seq<(Seq<char>, PropValue)>,
)
    requires
        forall|i: int| 0 <= i < s3.len() ==> (#[trigger] s3[i]).0 != name,
        forall|i: int| 0 <= i < extras.len() ==> (#[trigger] extras[i]).0 != name,
    ensures
        object_entries(
            msg_prop,
            msg,
            s1 + seq![(name, a)] + s2 + seq![(name, b)] + s3,
            extras,
            false,
        ).dom().contains(name),
        object_entries(
            msg_prop,
            msg,
            s1 + seq![(name, a)] + s2 + seq![(name, b)] + s3,
            extras,
            false,
        )[name] == b,
        kept_segments(s1 + seq![(name, a)] + s2 + seq![(name, b)] + s3, false) == kept_segments(
            s1,
            false,
        ) + seq![segment(name, a)] + kept_segments(s2, false) + seq![segment(name, b)]
            + kept_segments(s3, false),
{
    let props = s1 + seq![(name, a)] + s2 + seq![(name, b)] + s3;
    let base = Map::<Seq<char>, PropValue>::empty().insert(msg_prop, PropValue::Str(msg));

    // object side: decompose the fold around the binding of b
    let before = s1 + seq![(name, a)] + s2;
    assert(props =~= before + seq![(name, b)] + s3);
    json_formatter::lemma_upsert_all_concat(
        base,
        before + seq![(name, b)],
        s3,
        false,
    );
    json_formatter::lemma_upsert_all_concat(base, before, seq![(name, b)], false);
    let mid = upsert_all(base, before, false);
    assert(upsert_all(mid, seq![(name, b)], false) == upsert(
        upsert_all(upsert(mid, name, b, false), seq![(name, b)].drop_first(), false),
        name,
        b,
        false,
    )) by {
        assert(seq![(name, b)].drop_first() =~= Seq::<(Seq<char>, PropValue)>::empty());
    }
    assert(upsert_all(mid, seq![(name, b)], false) == mid.insert(name, b)) by {
        assert(seq![(name, b)].drop_first() =~= Seq::<(Seq<char>, PropValue)>::empty());
        assert(seq![(name, b)][0] == (name, b));
    }
    assert(before + seq![(name, b)] =~= props.take(before.len() as int + 1));
    json_formatter::lemma_upsert_all_absent(
        mid.insert(name, b),
        s3,
        false,
        name,
    );
    let after_props = upsert_all(upsert_all(base, before + seq![(name, b)], false), s3, false);
    assert(after_props.dom().contains(name) && after_props[name] == b);
    assert(upsert_all(base, props, false) == after_props) by {
        assert(props =~= (before + seq![(name, b)]) + s3);
        json_formatter::lemma_upsert_all_concat(
            base,
            before + seq![(name, b)],
            s3,
            false,
        );
    }
    json_formatter::lemma_upsert_all_absent(
        upsert_all(base, props, false),
        extras,
        false,
        name,
    );

    // text side: the kept segments distribute over the concatenation
    simple_formatter::lemma_kept_segments_concat(
        s1 + seq![(name, a)] + s2 + seq![(name, b)],
        s3,
        false,
    );
    simple_formatter::lemma_kept_segments_concat(
        s1 + seq![(name, a)] + s2,
        seq![(name, b)],
        false,
    );
    simple_formatter::lemma_kept_segments_concat(
        s1 + seq![(name, a)],
        s2,
        false,
    );
    simple_formatter::lemma_kept_segments_concat(s1, seq![(name, a)], false);
    assert(kept_segments(Seq::<(Seq<char>, PropValue)>::empty(), false) == Seq::<Seq<char>>::empty());
    assert(kept_segments(seq![(name, a)], false) =~= seq![segment(name, a)]) by {
        assert(seq![(name, a)].drop_first() =~= Seq::<(Seq<char>, PropValue)>::empty());
        assert(seq![(name, a)][0] == (name, a));
        assert(kept_segments(Seq::<(Seq<char>, PropValue)>::empty(), false) == Seq::<Seq<char>>::empty());
    }
    assert(kept_segments(seq![(name, b)], false) =~= seq![segment(name, b)]) by {
        assert(seq![(name, b)].drop_first() =~= Seq::<(Seq<char>, PropValue)>::empty());
        assert(seq![(name, b)][0] == (name, b));
        assert(kept_segments(Seq::<(Seq<char>, PropValue)>::empty(), false) == Seq::<Seq<char>>::empty());
    }
}

} // verus!

