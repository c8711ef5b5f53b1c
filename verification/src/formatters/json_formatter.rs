//! The object (JSON) renderer: a flat mapping from property name to typed
//! value, the message under the message property name, later same-named
//! keys overwriting earlier ones, and the event's ad-hoc pairs merged in
//! last.
//!
//! ```json
//! {"level":"INFO","msg":"logging a thing","timeStamp":"2021-03-29T15:49:16.425441203+00:00"}
//! ```

use vstd::prelude::*;

use crate::event::Event;
use crate::formatters::TacitFormatter;
use crate::formatters::pairs_view;
use crate::properties::PropValue;
use crate::properties::Property;
use crate::properties::StaticProperty;
use crate::properties::resolves_to;

verus! {

#[verifier::external_type_specification]
#[verifier::external_body]
pub struct ExJsonValue(serde_json::Value);

#[verifier::external_type_specification]
#[verifier::external_body]
#[verifier::reject_recursive_types(K)]
#[verifier::reject_recursive_types(V)]
pub struct ExJsonMap<K, V>(serde_json::Map<K, V>);

/// The property value a `serde_json::Value` holds.
pub uninterp spec fn value_model(v: serde_json::Value) -> PropValue;

/// A JSON object under construction: a string-keyed `serde_json` map.
pub type JsonObject = serde_json::Map<String, serde_json::Value>;

/// The (name, value) entries a `serde_json::Map` holds.
pub uninterp spec fn object_model(m: JsonObject) -> Map<Seq<char>, PropValue>;

/// The text `serde_json::to_string` produces for an object with the given
/// entries (the underlying map is ordered by key, so the text depends on
/// the entries alone).
pub uninterp spec fn json_object_text(entries: Map<Seq<char>, PropValue>) -> Seq<char>;

/// An object with no entries.
pub open spec fn empty_entries() -> Map<Seq<char>, PropValue> {
    Map::empty()
}

impl StaticProperty {
    /// This value as a `serde_json::Value`.
    ///
    /// Relies on the `serde_json::Value` constructors `String`, `Number`
    /// and `Null` (with `serde_json::Number::from`): each variant carries
    /// over with its content unchanged.
    #[verifier::external_body]
    pub fn json_value(&self) -> (r: serde_json::Value)
        ensures
            value_model(r) == self@,
    {
        match self {
            StaticProperty::String(v) => serde_json::Value::String(v.to_string()),
            StaticProperty::Number(v) => serde_json::Value::Number(serde_json::Number::from(*v)),
            StaticProperty::Null => serde_json::Value::Null,
        }
    }
}

impl Property {
    /// This property, resolved against `event`, as a `serde_json::Value`.
    pub fn json_value(&self, event: &Event) -> (r: serde_json::Value)
        ensures
            exists|v: PropValue| #[trigger] resolves_to(*self, event.level, v) && value_model(r)
                == v,
    {
        let p = self.resolve(event);
        let r = p.json_value();
        proof {
            assert(resolves_to(*self, event.level, p@) && value_model(r) == p@);
        }
        r
    }
}

/// An empty JSON object.
///
/// Relies on `serde_json::Map::new`.
#[verifier::external_body]
fn object_new() -> (r: JsonObject)
    ensures
        object_model(r) == empty_entries(),
{
    serde_json::Map::new()
}

/// Bind `name` to `value` in the object, replacing any earlier binding.
///
/// Relies on `serde_json::Map::insert` (a key-ordered map: insertion
/// replaces the value of an existing key and the earlier value is
/// returned, here dropped).
#[verifier::external_body]
fn object_insert(m: &mut JsonObject, name: &str, value: &StaticProperty)
    ensures
        object_model(*final(m)) == object_model(*old(m)).insert(name@, value@),
{
    let v = match value {
        StaticProperty::String(s) => serde_json::Value::String(s.to_string()),
        StaticProperty::Number(n) => serde_json::Value::Number(serde_json::Number::from(*n)),
        StaticProperty::Null => serde_json::Value::Null,
    };
    m.insert(name.to_owned(), v);
}

/// Serialize the object.
///
/// Relies on `serde_json::to_string`: serializing a string-keyed map of
/// strings, 64-bit integers and nulls cannot fail, and the text depends
/// on the entries alone because the map is ordered by key.
#[verifier::external_body]
fn object_to_string(m: &JsonObject) -> (r: String)
    ensures
        r@ == json_object_text(object_model(*m)),
{
    serde_json::to_string(m).expect("serializing a flat JSON object cannot fail")
}

/// `entries` with `name` bound to `v`, or unchanged when `ignore_empty`
/// suppresses a null value (an earlier binding of `name` then stays).
pub open spec fn upsert(
    entries: Map<Seq<char>, PropValue>,
    name: Seq<char>,
    v: PropValue,
    ignore_empty: bool,
) -> Map<Seq<char>, PropValue> {
    if ignore_empty && v is Null {
        entries
    } else {
        entries.insert(name, v)
    }
}

/// `entries` after binding every pair of `props` in order.
pub open spec fn upsert_all(
    entries: Map<Seq<char>, PropValue>,
    props: Seq<(Seq<char>, PropValue)>,
    ignore_empty: bool,
) -> Map<Seq<char>, PropValue>
    decreases props.len(),
{
    if props.len() == 0 {
        entries
    } else {
        upsert_all(
            upsert(entries, props[0].0, props[0].1, ignore_empty),
            props.drop_first(),
            ignore_empty,
        )
    }
}

/// The entries of the rendered object: the message under `msg_prop`, then
/// the resolved properties in registration order (later same-named keys
/// overwrite earlier ones, the message included), then the event's ad-hoc
/// pairs, which can shadow everything before them.
pub open spec fn object_entries(
    msg_prop: Seq<char>,
    msg: Seq<char>,
    props: Seq<(Seq<char>, PropValue)>,
    extras: Seq<(Seq<char>, PropValue)>,
    ignore_empty: bool,
) -> Map<Seq<char>, PropValue> {
    upsert_all(
        upsert_all(
            Map::<Seq<char>, PropValue>::empty().insert(msg_prop, PropValue::Str(msg)),
            props,
            ignore_empty,
        ),
        extras,
        ignore_empty,
    )
}

/// Binding one more pair binds it last.
proof fn lemma_upsert_all_snoc(
    entries: Map<Seq<char>, PropValue>,
    props: Seq<(Seq<char>, PropValue)>,
    x: (Seq<char>, PropValue),
    ignore_empty: bool,
)
    ensures
        upsert_all(entries, props.push(x), ignore_empty) == upsert(
            upsert_all(entries, props, ignore_empty),
            x.0,
            x.1,
            ignore_empty,
        ),
    decreases props.len(),
{
    let stepped = upsert(entries, props.push(x)[0].0, props.push(x)[0].1, ignore_empty);
    assert(upsert_all(entries, props.push(x), ignore_empty) == upsert_all(
        stepped,
        props.push(x).drop_first(),
        ignore_empty,
    ));
    if props.len() == 0 {
        assert(props.push(x)[0] == x);
        assert(props.push(x).drop_first() =~= Seq::<(Seq<char>, PropValue)>::empty());
        assert(upsert_all(stepped, props.push(x).drop_first(), ignore_empty) == stepped);
        assert(upsert_all(entries, props, ignore_empty) == entries);
        assert(stepped == upsert(entries, x.0, x.1, ignore_empty));
    } else {
        assert(props.push(x)[0] == props[0]);
        assert(props.push(x).drop_first() =~= props.drop_first().push(x));
        lemma_upsert_all_snoc(
            upsert(entries, props[0].0, props[0].1, ignore_empty),
            props.drop_first(),
            x,
            ignore_empty,
        );
        assert(upsert_all(entries, props, ignore_empty) == upsert_all(
            upsert(entries, props[0].0, props[0].1, ignore_empty),
            props.drop_first(),
            ignore_empty,
        ));
    }
}

/// The object (JSON) renderer.
pub struct JsonFormatter {}

impl core::default::Default for JsonFormatter {
    fn default() -> (r: JsonFormatter)
        ensures
            r == (JsonFormatter {  }),
    {
        JsonFormatter {  }
    }
}

impl TacitFormatter for JsonFormatter {
    /// This renderer emits the serialized object whose entries are the
    /// message, the resolved properties and the event's ad-hoc pairs,
    /// later bindings shadowing earlier ones of the same name.
    open spec fn spec_render(
        msg_prop: Seq<char>,
        msg: Seq<char>,
        props: Seq<(Seq<char>, PropValue)>,
        extras: Seq<(Seq<char>, PropValue)>,
        ignore_empty: bool,
    ) -> Seq<char> {
        json_object_text(object_entries(msg_prop, msg, props, extras, ignore_empty))
    }

    fn render(
        &self,
        msg_prop: &str,
        msg: &str,
        props: &Vec<(String, StaticProperty)>,
        extras: &Vec<(String, StaticProperty)>,
        ignore_empty: bool,
    ) -> (r: String) {
        let ghost pv = pairs_view(props@);
        let ghost ev = pairs_view(extras@);
        let mut m = object_new();
        let message = StaticProperty::String(msg.to_owned());
        object_insert(&mut m, msg_prop, &message);
        let ghost base = Map::<Seq<char>, PropValue>::empty().insert(
            msg_prop@,
            PropValue::Str(msg@),
        );
        proof {
            assert(pv.take(0) =~= Seq::<(Seq<char>, PropValue)>::empty());
            assert(ev.take(0) =~= Seq::<(Seq<char>, PropValue)>::empty());
        }
        let mut i: usize = 0;
        while i < props.len()
            invariant
                i <= props@.len(),
                pv == pairs_view(props@),
                base == Map::<Seq<char>, PropValue>::empty().insert(
                    msg_prop@,
                    PropValue::Str(msg@),
                ),
                object_model(m) == upsert_all(base, pv.take(i as int), ignore_empty),
            decreases props@.len() - i,
        {
            proof {
                assert(pv.take(i as int).push(pv[i as int]) =~= pv.take(i as int + 1));
                lemma_upsert_all_snoc(base, pv.take(i as int), pv[i as int], ignore_empty);
            }
            let keep = !(ignore_empty && props[i].1.is_null());
            if keep {
                object_insert(&mut m, props[i].0.as_str(), &props[i].1);
            }
            i = i + 1;
        }
        let ghost mid = upsert_all(base, pv, ignore_empty);
        proof {
            assert(pv.take(props@.len() as int) =~= pv);
        }
        let mut j: usize = 0;
        while j < extras.len()
            invariant
                j <= extras@.len(),
                ev == pairs_view(extras@),
                mid == upsert_all(base, pv, ignore_empty),
                base == Map::<Seq<char>, PropValue>::empty().insert(
                    msg_prop@,
                    PropValue::Str(msg@),
                ),
                object_model(m) == upsert_all(mid, ev.take(j as int), ignore_empty),
            decreases extras@.len() - j,
        {
            proof {
                assert(ev.take(j as int).push(ev[j as int]) =~= ev.take(j as int + 1));
                lemma_upsert_all_snoc(mid, ev.take(j as int), ev[j as int], ignore_empty);
            }
            let keep = !(ignore_empty && extras[j].1.is_null());
            if keep {
                object_insert(&mut m, extras[j].0.as_str(), &extras[j].1);
            }
            j = j + 1;
        }
        proof {
            assert(ev.take(extras@.len() as int) =~= ev);
            assert(object_model(m) == object_entries(msg_prop@, msg@, pv, ev, ignore_empty));
        }
        object_to_string(&m)
    }
}

/// Binding the pairs of a concatenation binds the first part, then the
/// second.
pub(crate) proof fn lemma_upsert_all_concat(
    entries: Map<Seq<char>, PropValue>,
    x: Seq<(Seq<char>, PropValue)>,
    y: Seq<(Seq<char>, PropValue)>,
    ignore_empty: bool,
)
    ensures
        upsert_all(entries, x + y, ignore_empty) == upsert_all(
            upsert_all(entries, x, ignore_empty),
            y,
            ignore_empty,
        ),
    decreases x.len(),
{
    if x.len() == 0 {
        assert(x + y =~= y);
    } else {
        assert((x + y)[0] == x[0]);
        assert((x + y).drop_first() =~= x.drop_first() + y);
        lemma_upsert_all_concat(
            upsert(entries, x[0].0, x[0].1, ignore_empty),
            x.drop_first(),
            y,
            ignore_empty,
        );
    }
}

/// Pairs that never mention `key` leave `key`'s binding alone.
pub(crate) proof fn lemma_upsert_all_absent(
    entries: Map<Seq<char>, PropValue>,
    props: Seq<(Seq<char>, PropValue)>,
    ignore_empty: bool,
    key: Seq<char>,
)
    requires
        forall|i: int| 0 <= i < props.len() ==> (#[trigger] props[i]).0 != key,
    ensures
        upsert_all(entries, props, ignore_empty).dom().contains(key) == entries.dom().contains(
            key,
        ),
        entries.dom().contains(key) ==> upsert_all(entries, props, ignore_empty)[key]
            == entries[key],
    decreases props.len(),
{
    if props.len() > 0 {
        assert(props[0].0 != key);
        lemma_upsert_all_absent(
            upsert(entries, props[0].0, props[0].1, ignore_empty),
            props.drop_first(),
            ignore_empty,
            key,
        );
    }
}

} // verus!

