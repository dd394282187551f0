//! Decoding of vCard-encoded contact records.
//!
//! A raw record is a text blob in the vCard property-list format. The card
//! parser turns the first embedded card into a list of properties (a name
//! plus an optional value); everything after that point is verified: the
//! version filter (`VERSION` must be exactly `"4.0"`), the required display
//! name (`FN`), the repeated `EMAIL` and `TEL` properties, and the assembly
//! of a whole enumeration into an ordered collection in which every record
//! that fails to decode is skipped and no surviving record is reordered.

use crate::utils::{Contact, ContactModel, Mail, Phone};
use vstd::prelude::*;

verus! {

/// One parsed property of a contact card: an (upper-case) name and an
/// optional value. Parameters are not consulted by the decoder and are
/// dropped at the parsing boundary.
#[derive(Debug, PartialEq, Eq)]
pub struct Prop {
    pub name: String,
    pub value: Option<String>,
}

/// The mathematical shadow of a [`Prop`]: the name's characters paired with
/// the value's characters, if a value is present.
pub type PropModel = (Seq<char>, Option<Seq<char>>);

impl Prop {
    pub open spec fn model(self) -> PropModel {
        (
            self.name@,
            match self.value {
                Some(v) => Some(v@),
                None => None,
            },
        )
    }
}

/// The mathematical shadow of a whole property list.
pub open spec fn props_model(props: Seq<Prop>) -> Seq<PropModel> {
    props.map_values(|p: Prop| p.model())
}

/// The property name that carries the format version.
pub open spec fn version_name() -> Seq<char> {
    "VERSION"@
}

/// The one format version this decoder accepts.
pub open spec fn supported_version() -> Seq<char> {
    "4.0"@
}

/// The property name that carries the required display name.
pub open spec fn display_name() -> Seq<char> {
    "FN"@
}

/// The property name of one mail address.
pub open spec fn email_name() -> Seq<char> {
    "EMAIL"@
}

/// The property name of one phone number.
pub open spec fn tel_name() -> Seq<char> {
    "TEL"@
}

/// What the card parser yields for a given text: the properties of the first
/// embedded card, or nothing when the text holds no well-formed card. The
/// outcome is a function of the text alone.
pub uninterp spec fn first_card_props(s: Seq<char>) -> Option<Seq<PropModel>>;

/// The first property carrying `name`, scanning from the front.
pub open spec fn first_named(props: Seq<PropModel>, name: Seq<char>) -> Option<PropModel>
    decreases props.len(),
{
    if props.len() == 0 {
        None
    } else if props.first().0 == name {
        Some(props.first())
    } else {
        first_named(props.drop_first(), name)
    }
}

/// The values (present or not) of every property carrying `name`, in the
/// order the properties appear.
pub open spec fn named_values(props: Seq<PropModel>, name: Seq<char>) -> Seq<Option<Seq<char>>>
    decreases props.len(),
{
    if props.len() == 0 {
        Seq::empty()
    } else {
        let prefix = named_values(props.drop_last(), name);
        if props.last().0 == name {
            prefix.push(props.last().1)
        } else {
            prefix
        }
    }
}

/// Whether every value in `vals` is present.
pub open spec fn all_present(vals: Seq<Option<Seq<char>>>) -> bool {
    forall|i: int| 0 <= i < vals.len() ==> vals[i] is Some
}

/// The contents of a sequence of present values.
pub open spec fn present_values(vals: Seq<Option<Seq<char>>>) -> Seq<Seq<char>> {
    vals.map_values(
        |v: Option<Seq<char>>|
            match v {
                Some(s) => s,
                None => Seq::empty(),
            },
    )
}

/// What a list of card properties decodes to: a contact when the version is
/// present and supported, the display name is present with a value, and every
/// `EMAIL` and `TEL` property carries a value; nothing otherwise.
pub open spec fn decode_props_model(props: Seq<PropModel>) -> Option<ContactModel> {
    match first_named(props, version_name()) {
        None => None,
        Some(vp) => if vp.1 != Some(supported_version()) {
            None
        } else {
            match first_named(props, display_name()) {
                None => None,
                Some(np) => match np.1 {
                    None => None,
                    Some(n) => {
                        let mails = named_values(props, email_name());
                        let phones = named_values(props, tel_name());
                        if all_present(mails) && all_present(phones) {
                            Some(
                                ContactModel {
                                    name: n,
                                    mails: present_values(mails),
                                    phones: present_values(phones),
                                },
                            )
                        } else {
                            None
                        }
                    },
                },
            }
        },
    }
}

/// What one raw record decodes to: the decoding of the first embedded card,
/// or nothing when the text holds none.
pub open spec fn decode_record_model(s: Seq<char>) -> Option<ContactModel> {
    match first_card_props(s) {
        None => None,
        Some(props) => decode_props_model(props),
    }
}

/// Relies on ical's vCard parser (`ical::VcardParser`): it yields the
/// properties of the first card found in the text — name, parameters and
/// optional value, with the name folded to upper case — or an error or
/// nothing when the text holds no well-formed card; the outcome depends on
/// the text alone.
#[verifier::external_body]
fn parse_first_card(encoded: &str) -> (r: Option<Vec<Prop>>)
    ensures
        match r {
            Some(props) => first_card_props(encoded@) == Some(props_model(props@)),
            None => first_card_props(encoded@) is None,
        },
{
    let buf = std::io::BufReader::new(encoded.as_bytes());
    let mut parser = ical::VcardParser::new(buf);
    match parser.next() {
        Some(Ok(card)) => Some(
            card.properties.into_iter().map(|p| Prop { name: p.name, value: p.value }).collect(),
        ),
        Some(Err(_)) => None,
        None => None,
    }
}

/// The index of the first property carrying `name`, if any.
fn find_named(props: &Vec<Prop>, name: &String) -> (r: Option<usize>)
    ensures
        match r {
            Some(i) => i < props.len() && first_named(props_model(props@), name@) == Some(
                props@[i as int].model(),
            ),
            None => first_named(props_model(props@), name@) is None,
        },
{
    let ghost m = props_model(props@);
    let mut i: usize = 0;
    proof {
        assert(m.skip(0) =~= m);
    }
    while i < props.len()
        invariant
            i <= props.len(),
            m == props_model(props@),
            first_named(m, name@) == first_named(m.skip(i as int), name@),
        decreases props.len() - i,
    {
        if props[i].name == *name {
            proof {
                assert(m.skip(i as int).first() == m[i as int]);
            }
            return Some(i);
        }
        proof {
            assert(m.skip(i as int).drop_first() =~= m.skip(i as int + 1));
            assert(m.skip(i as int).first() == m[i as int]);
        }
        i = i + 1;
    }
    proof {
        assert(m.skip(i as int).len() == 0);
    }
    None
}

/// The named values of a prefix of `props` are a prefix of the named values
/// of `props` itself.
proof fn lemma_named_values_prefix(props: Seq<PropModel>, name: Seq<char>, i: int)
    requires
        0 <= i <= props.len(),
    ensures
        named_values(props.take(i), name).len() <= named_values(props, name).len(),
        named_values(props.take(i), name) == named_values(props, name).take(
            named_values(props.take(i), name).len() as int,
        ),
    decreases props.len() - i,
{
    let full = named_values(props, name);
    if i == props.len() {
        assert(props.take(i) =~= props);
        assert(full.take(full.len() as int) =~= full);
    } else {
        lemma_named_values_prefix(props, name, i + 1);
        let a = named_values(props.take(i), name);
        let b = named_values(props.take(i + 1), name);
        assert(props.take(i + 1).drop_last() =~= props.take(i));
        assert(props.take(i + 1).last() == props[i]);
        if props[i].0 == name {
            assert(b == a.push(props[i].1));
            assert(a =~= b.take(b.len() - 1));
            assert(b.take(b.len() - 1) =~= full.take(b.len() as int).take(b.len() - 1));
            assert(full.take(b.len() as int).take(b.len() - 1) =~= full.take(b.len() - 1));
        } else {
            assert(b == a);
        }
    }
}

/// The values of every property carrying `name`, when each is present;
/// nothing as soon as one such property lacks a value.
fn collect_named(props: &Vec<Prop>, name: &String) -> (r: Option<Vec<String>>)
    ensures
        match r {
            Some(vs) => all_present(named_values(props_model(props@), name@)) && vs@.map_values(
                |s: String| s@,
            ) == present_values(named_values(props_model(props@), name@)),
            None => !all_present(named_values(props_model(props@), name@)),
        },
{
    let ghost m = props_model(props@);
    let mut out: Vec<String> = Vec::new();
    let mut i: usize = 0;
    proof {
        assert(m.take(0) =~= Seq::<PropModel>::empty());
        assert(out@.map_values(|s: String| s@) =~= present_values(named_values(m.take(0), name@)));
    }
    while i < props.len()
        invariant
            i <= props.len(),
            m == props_model(props@),
            all_present(named_values(m.take(i as int), name@)),
            out@.map_values(|s: String| s@) == present_values(named_values(m.take(i as int), name@)),
        decreases props.len() - i,
    {
        proof {
            assert(m.take(i as int + 1).drop_last() =~= m.take(i as int));
            assert(m.take(i as int + 1).last() == m[i as int]);
        }
        if props[i].name == *name {
            match &props[i].value {
                Some(v) => {
                    proof {
                        assert(m[i as int] == props@[i as int].model());
                        assert(m[i as int].1 == Some(v@));
                        assert(named_values(m.take(i as int + 1), name@) == named_values(
                            m.take(i as int),
                            name@,
                        ).push(Some(v@)));
                    }
                    let ghost pre = out@;
                    out.push(v.clone());
                    proof {
                        let post_vals = named_values(m.take(i as int + 1), name@);
                        let pre_vals = named_values(m.take(i as int), name@);
                        assert(out@ == pre.push(*v));
                        assert(pre.map_values(|s: String| s@) == present_values(pre_vals));
                        assert(pre.map_values(|s: String| s@).len() == pre.len());
                        assert(present_values(pre_vals).len() == pre_vals.len());
                        assert(pre.len() == pre_vals.len());
                        assert(out@.map_values(|s: String| s@).len() == present_values(
                            post_vals,
                        ).len());
                        assert forall|k: int| 0 <= k < out@.len() implies out@.map_values(
                            |s: String| s@,
                        )[k] == present_values(post_vals)[k] by {
                            assert(out@.map_values(|s: String| s@)[k] == out@[k]@);
                            assert(present_values(post_vals)[k] == (match post_vals[k] {
                                Some(s) => s,
                                None => Seq::empty(),
                            }));
                            if k < pre.len() {
                                assert(out@[k] == pre[k]);
                                assert(pre.map_values(|s: String| s@)[k] == pre[k]@);
                                assert(post_vals[k] == pre_vals[k]);
                            } else {
                                assert(out@[k] == *v);
                                assert(post_vals[k] == Some(v@));
                            }
                        }
                        assert(out@.map_values(|s: String| s@) =~= present_values(post_vals));
                    }
                },
                None => {
                    proof {
                        lemma_named_values_prefix(m, name@, i as int + 1);
                        let vals_pre = named_values(m.take(i as int + 1), name@);
                        let vals = named_values(m, name@);
                        assert(vals_pre.last() is None);
                        assert(vals[vals_pre.len() - 1] is None);
                        assert(!all_present(vals));
                    }
                    return None;
                },
            }
        } else {
            proof {
                assert(named_values(m.take(i as int + 1), name@) == named_values(
                    m.take(i as int),
                    name@,
                ));
            }
        }
        i = i + 1;
    }
    proof {
        assert(m.take(i as int) =~= m);
    }
    Some(out)
}

/// Wraps each collected address into a [`Mail`].
fn wrap_mails(vs: &Vec<String>) -> (r: Vec<Mail>)
    ensures
        r@.map_values(|m: Mail| m.model()) == vs@.map_values(|s: String| s@),
{
    let mut out: Vec<Mail> = Vec::new();
    let mut i: usize = 0;
    while i < vs.len()
        invariant
            i <= vs.len(),
            out@.len() == i as int,
            forall|k: int| 0 <= k < i as int ==> out@[k].address == vs@[k],
        decreases vs.len() - i,
    {
        out.push(Mail { address: vs[i].clone() });
        i = i + 1;
    }
    proof {
        assert(out@.map_values(|m: Mail| m.model()) =~= vs@.map_values(|s: String| s@));
    }
    out
}

/// Wraps each collected number into a [`Phone`].
fn wrap_phones(vs: &Vec<String>) -> (r: Vec<Phone>)
    ensures
        r@.map_values(|p: Phone| p.model()) == vs@.map_values(|s: String| s@),
{
    let mut out: Vec<Phone> = Vec::new();
    let mut i: usize = 0;
    while i < vs.len()
        invariant
            i <= vs.len(),
            out@.len() == i as int,
            forall|k: int| 0 <= k < i as int ==> out@[k].number == vs@[k],
        decreases vs.len() - i,
    {
        out.push(Phone { number: vs[i].clone() });
        i = i + 1;
    }
    proof {
        assert(out@.map_values(|p: Phone| p.model()) =~= vs@.map_values(|s: String| s@));
    }
    out
}

/// Decodes one card's properties into a contact: the version must be present
/// and exactly the supported one, the display name must be present with a
/// value, and every mail and phone property must carry a value; yields
/// nothing exactly when one of those conditions fails.
pub fn decode_props(props: &Vec<Prop>) -> (r: Option<Contact>)
    ensures
        match r {
            Some(c) => decode_props_model(props_model(props@)) == Some(c.model()),
            None => decode_props_model(props_model(props@)) is None,
        },
{
    let ghost m = props_model(props@);
    let version_key = "VERSION".to_owned();
    let vi = match find_named(props, &version_key) {
        None => { return None; },
        Some(i) => i,
    };
    let supported = "4.0".to_owned();
    let version_ok = match &props[vi].value {
        Some(v) => *v == supported,
        None => false,
    };
    proof {
        assert(m[vi as int] == props@[vi as int].model());
    }
    if !version_ok {
        return None;
    }
    let name_key = "FN".to_owned();
    let ni = match find_named(props, &name_key) {
        None => { return None; },
        Some(i) => i,
    };
    proof {
        assert(m[ni as int] == props@[ni as int].model());
    }
    let name = match &props[ni].value {
        Some(v) => v.clone(),
        None => { return None; },
    };
    let email_key = "EMAIL".to_owned();
    let mails_raw = match collect_named(props, &email_key) {
        None => { return None; },
        Some(vs) => vs,
    };
    let tel_key = "TEL".to_owned();
    let phones_raw = match collect_named(props, &tel_key) {
        None => { return None; },
        Some(vs) => vs,
    };
    let mails = wrap_mails(&mails_raw);
    let phones = wrap_phones(&phones_raw);
    let c = Contact { name, mails, phones };
    proof {
        assert(c.model().mails == present_values(named_values(m, email_name())));
        assert(c.model().phones == present_values(named_values(m, tel_name())));
    }
    Some(c)
}

/// What one raw record decodes to: the decoding of the first embedded card,
/// or nothing when the text holds no well-formed card.
pub fn decode_record(encoded: &str) -> (r: Option<Contact>)
    ensures
        match r {
            Some(c) => decode_record_model(encoded@) == Some(c.model()),
            None => decode_record_model(encoded@) is None,
        },
{
    match parse_first_card(encoded) {
        None => None,
        Some(props) => decode_props(&props),
    }
}

/// The mathematical shadow of an enumeration of raw records.
pub open spec fn raw_model(raw: Seq<(u64, String)>) -> Seq<(u64, Seq<char>)> {
    raw.map_values(|p: (u64, String)| (p.0, p.1@))
}

/// The mathematical shadow of a decoded collection.
pub open spec fn pairs_model(out: Seq<(u64, Contact)>) -> Seq<(u64, ContactModel)> {
    out.map_values(|p: (u64, Contact)| (p.0, p.1.model()))
}

/// What a whole enumeration decodes to: each record that decodes contributes
/// its contact, paired with its identifier, in enumeration order; every other
/// record is skipped.
pub open spec fn decode_all_model(raw: Seq<(u64, Seq<char>)>) -> Seq<(u64, ContactModel)>
    decreases raw.len(),
{
    if raw.len() == 0 {
        Seq::empty()
    } else {
        let prefix = decode_all_model(raw.drop_last());
        match decode_record_model(raw.last().1) {
            Some(c) => prefix.push((raw.last().0, c)),
            None => prefix,
        }
    }
}

/// Decodes every raw record independently, skipping each record that fails
/// to parse or to validate, and keeps the enumeration order of the rest.
pub fn decode_records(raw: &Vec<(u64, String)>) -> (r: Vec<(u64, Contact)>)
    ensures
        pairs_model(r@) == decode_all_model(raw_model(raw@)),
{
    let mut out: Vec<(u64, Contact)> = Vec::new();
    let mut i: usize = 0;
    proof {
        assert(raw_model(raw@.take(0)) =~= Seq::<(u64, Seq<char>)>::empty());
        assert(pairs_model(out@) =~= decode_all_model(raw_model(raw@.take(0))));
    }
    while i < raw.len()
        invariant
            i <= raw.len(),
            pairs_model(out@) == decode_all_model(raw_model(raw@.take(i as int))),
        decreases raw.len() - i,
    {
        let id = raw[i].0;
        let ghost pre_out = out@;
        proof {
            assert(raw_model(raw@.take(i as int + 1)).drop_last() =~= raw_model(
                raw@.take(i as int),
            ));
            assert(raw_model(raw@.take(i as int + 1)).last() == (
                raw@[i as int].0,
                raw@[i as int].1@,
            ));
        }
        match decode_record(raw[i].1.as_str()) {
            Some(c) => {
                out.push((id, c));
                proof {
                    let tgt = decode_all_model(raw_model(raw@.take(i as int + 1)));
                    let prev = decode_all_model(raw_model(raw@.take(i as int)));
                    assert(tgt == prev.push((id, c.model())));
                    assert(out@ == pre_out.push((id, c)));
                    assert(pairs_model(pre_out) == prev);
                    assert(pairs_model(pre_out).len() == pre_out.len());
                    assert(pairs_model(out@).len() == out@.len());
                    assert forall|k: int| 0 <= k < out@.len() implies pairs_model(out@)[k]
                        == tgt[k] by {
                        assert(pairs_model(out@)[k] == (out@[k].0, out@[k].1.model()));
                        if k < pre_out.len() {
                            assert(out@[k] == pre_out[k]);
                            assert(pairs_model(pre_out)[k] == (pre_out[k].0, pre_out[k].1.model()));
                            assert(tgt[k] == prev[k]);
                        } else {
                            assert(out@[k] == (id, c));
                            assert(tgt[k] == (id, c.model()));
                        }
                    }
                    assert(pairs_model(out@) =~= tgt);
                }
            },
            None => {
                proof {
                    assert(decode_all_model(raw_model(raw@.take(i as int + 1)))
                        == decode_all_model(raw_model(raw@.take(i as int))));
                }
            },
        }
        i = i + 1;
    }
    proof {
        assert(raw@.take(i as int) =~= raw@);
    }
    out
}

/// The version filter: a card whose `VERSION` property is missing, has no
/// value, or has a value other than the supported one decodes to nothing,
/// however well-formed its other properties are.
pub proof fn lemma_version_filter(props: Seq<PropModel>)
    requires
        match first_named(props, version_name()) {
            Some(vp) => vp.1 != Some(supported_version()),
            None => true,
        },
    ensures
        decode_props_model(props) is None,
{
}

/// The display name is required: a card with no `FN` property, or an `FN`
/// property without a value, decodes to nothing even when its version is
/// valid.
pub proof fn lemma_name_required(props: Seq<PropModel>)
    requires
        match first_named(props, display_name()) {
            Some(np) => np.1 is None,
            None => true,
        },
    ensures
        decode_props_model(props) is None,
{
}

/// The version filter at the record level: a raw record whose first card
/// has no `VERSION` property, or one that is absent or not exactly the
/// supported version, decodes to nothing — so, with fault isolation, it
/// never appears in a decoded collection.
pub proof fn lemma_version_filter_record(s: Seq<char>)
    requires
        match first_card_props(s) {
            Some(props) => match first_named(props, version_name()) {
                Some(vp) => vp.1 != Some(supported_version()),
                None => true,
            },
            None => true,
        },
    ensures
        decode_record_model(s) is None,
{
    match first_card_props(s) {
        Some(props) => lemma_version_filter(props),
        None => {},
    }
}

/// The required name at the record level: a raw record whose first card has
/// no `FN` property with a value decodes to nothing, even with a valid
/// version.
pub proof fn lemma_name_required_record(s: Seq<char>)
    requires
        match first_card_props(s) {
            Some(props) => match first_named(props, display_name()) {
                Some(np) => np.1 is None,
                None => true,
            },
            None => true,
        },
    ensures
        decode_record_model(s) is None,
{
    match first_card_props(s) {
        Some(props) => lemma_name_required(props),
        None => {},
    }
}

/// Repeated properties: a decoded contact's mails are exactly the values of
/// the card's `EMAIL` properties in source order, and its phones exactly
/// those of its `TEL` properties.
pub proof fn lemma_repeated_fields(props: Seq<PropModel>, c: ContactModel)
    requires
        decode_props_model(props) == Some(c),
    ensures
        c.mails == present_values(named_values(props, email_name())),
        c.phones == present_values(named_values(props, tel_name())),
        c.mails.len() == named_values(props, email_name()).len(),
        c.phones.len() == named_values(props, tel_name()).len(),
{
}

/// Each raw record yields at most one contact, however many cards its text
/// concatenates: only the first card is consulted, and it decodes to at most
/// one contact.
pub proof fn lemma_at_most_one_per_record(raw: Seq<(u64, Seq<char>)>)
    ensures
        decode_all_model(raw).len() <= raw.len(),
    decreases raw.len(),
{
    if raw.len() > 0 {
        lemma_at_most_one_per_record(raw.drop_last());
    }
}

/// The indexes of the records that decode successfully, in enumeration
/// order.
pub open spec fn kept_indices(raw: Seq<(u64, Seq<char>)>) -> Seq<int>
    decreases raw.len(),
{
    if raw.len() == 0 {
        Seq::empty()
    } else {
        let prefix = kept_indices(raw.drop_last());
        if decode_record_model(raw.last().1) is Some {
            prefix.push(raw.len() - 1)
        } else {
            prefix
        }
    }
}

/// Order preservation: the decoded collection lists exactly the records
/// that decode successfully, each under its own identifier, at strictly
/// increasing positions of the enumeration — no reordering and no
/// placeholder for a skipped record.
pub proof fn lemma_order_preservation(raw: Seq<(u64, Seq<char>)>)
    ensures
        decode_all_model(raw).len() == kept_indices(raw).len(),
        forall|a: int, b: int|
            0 <= a < b < kept_indices(raw).len() ==> kept_indices(raw)[a] < kept_indices(raw)[b],
        forall|a: int|
            0 <= a < kept_indices(raw).len() ==> {
                let k = #[trigger] kept_indices(raw)[a];
                &&& 0 <= k < raw.len()
                &&& decode_all_model(raw)[a].0 == raw[k].0
                &&& decode_record_model(raw[k].1) == Some(decode_all_model(raw)[a].1)
            },
        forall|k: int|
            0 <= k < raw.len() && decode_record_model(raw[k].1) is Some ==> kept_indices(
                raw,
            ).contains(k),
    decreases raw.len(),
{
    if raw.len() > 0 {
        let rp = raw.drop_last();
        lemma_order_preservation(rp);
        assert forall|k: int| 0 <= k < rp.len() implies rp[k] == raw[k] by {}
        assert forall|k: int|
            0 <= k < raw.len() && decode_record_model(raw[k].1) is Some implies kept_indices(
            raw,
        ).contains(k) by {
            if k < rp.len() {
                assert(kept_indices(rp).contains(k));
                let a = choose|a: int| 0 <= a < kept_indices(rp).len() && kept_indices(rp)[a] == k;
                assert(kept_indices(raw)[a] == k);
            } else {
                assert(kept_indices(raw).last() == k);
            }
        }
    }
}

/// Fault isolation: a record that fails to decode contributes nothing, and
/// taking it out of the enumeration leaves the decoded collection exactly as
/// it was — no other entry is lost, changed or reordered.
pub proof fn lemma_fault_isolation(raw: Seq<(u64, Seq<char>)>, k: int)
    requires
        0 <= k < raw.len(),
        decode_record_model(raw[k].1) is None,
    ensures
        decode_all_model(raw) == decode_all_model(raw.remove(k)),
    decreases raw.len(),
{
    if k == raw.len() - 1 {
        assert(raw.remove(k) =~= raw.drop_last());
    } else {
        assert(raw.drop_last()[k] == raw[k]);
        lemma_fault_isolation(raw.drop_last(), k);
        assert(raw.remove(k).drop_last() =~= raw.drop_last().remove(k));
        assert(raw.remove(k).last() == raw.last());
        assert(raw.remove(k).len() > 0);
    }
}

/// Every record that decodes is kept: when each record of the enumeration
/// decodes, the collection has exactly one entry per record, in place.
pub proof fn lemma_all_records_kept(raw: Seq<(u64, Seq<char>)>)
    requires
        forall|i: int| 0 <= i < raw.len() ==> decode_record_model(raw[i].1) is Some,
    ensures
        decode_all_model(raw).len() == raw.len(),
        forall|i: int|
            0 <= i < raw.len() ==> decode_all_model(raw)[i].0 == raw[i].0 && decode_record_model(
                raw[i].1,
            ) == Some(decode_all_model(raw)[i].1),
    decreases raw.len(),
{
    if raw.len() > 0 {
        let rp = raw.drop_last();
        assert forall|i: int| 0 <= i < rp.len() implies decode_record_model(rp[i].1) is Some by {
            assert(rp[i] == raw[i]);
        }
        lemma_all_records_kept(rp);
        assert forall|i: int| 0 <= i < rp.len() implies rp[i] == raw[i] by {}
    }
}

} // verus!
