//! People and what each one enrolled: face and voice vectors, gesture
//! samples and a personal gesture map. The vectors themselves are opaque
//! here (`E` for an embedding, `L` for one hand's landmarks).

use vstd::prelude::*;
use crate::gate::{GateMode, gate_of_word};
use crate::ini::{entry_of, lines_of, ini_lines, split_entry};
use crate::radial::{yes_word, values_for};
use crate::hands::{GestureClass, GestureAction, GestureMap, default_map_spec, default_gesture_map, map_lookup};
use crate::text::{eq_str, lower_slice, string_of, trim_chars, norm,
    lower, lower_char, hex, push_hex, push_char, chars_of, lower_ascii, dec, push_decimal, eq_ignore_case};

verus! {

pub open spec fn is_alnum(c: char) -> bool {
    ('a' <= c && c <= 'z') || ('A' <= c && c <= 'Z') || ('0' <= c && c <= '9')
}

/// The ASCII letters and digits of `s`, in order.
pub open spec fn alnums(s: Seq<char>) -> Seq<char>
    decreases s.len(),
{
    if s.len() == 0 {
        s
    } else if is_alnum(s.last()) {
        alnums(s.drop_last()).push(s.last())
    } else {
        alnums(s.drop_last())
    }
}

/// At most the first `n` items.
pub open spec fn cap<A>(s: Seq<A>, n: int) -> Seq<A> {
    if s.len() <= n { s } else { s.subrange(0, n) }
}

/// The id stem: up to 12 letters and digits of the name, lowercased; `person` if none.
pub open spec fn slug(name: Seq<char>) -> Seq<char> {
    let t = lower(cap(alnums(name), 12));
    if t.len() == 0 { "person"@ } else { t }
}

/// A person's id: the name's stem, a hyphen, the creation time in hex.
pub open spec fn person_id(name: Seq<char>, created_ms: u64) -> Seq<char> {
    slug(name) + "-"@ + hex(created_ms as nat)
}

fn is_alnum_char(c: char) -> (b: bool)
    ensures
        b == is_alnum(c),
{
    ('a' <= c && c <= 'z') || ('A' <= c && c <= 'Z') || ('0' <= c && c <= '9')
}

proof fn lemma_slug_step(s: Seq<char>, c: char)
    ensures
        alnums(s.push(c)) == if is_alnum(c) { alnums(s).push(c) } else { alnums(s) },
        lower(cap(alnums(s.push(c)), 12)) == if is_alnum(c) && alnums(s).len() < 12 {
            lower(cap(alnums(s), 12)).push(lower_char(c))
        } else {
            lower(cap(alnums(s), 12))
        },
{
    assert(s.push(c).drop_last() =~= s);
    let a = alnums(s);
    if is_alnum(c) {
        if a.len() < 12 {
            assert(cap(a.push(c), 12) =~= cap(a, 12).push(c));
            assert(lower(cap(a, 12).push(c)) =~= lower(cap(a, 12)).push(lower_char(c)));
        } else {
            assert(cap(a.push(c), 12) =~= cap(a, 12));
        }
    }
}

/// The id stem of `name` (see `slug`).
pub fn name_slug(name: &str) -> (r: String)
    ensures
        r@ == slug(name@),
{
    let cs = chars_of(name);
    let mut out = String::new();
    let mut taken: usize = 0;
    let mut i: usize = 0;
    while i < cs.len()
        invariant
            cs@ == name@,
            i <= cs@.len(),
            out@ == lower(cap(alnums(cs@.subrange(0, i as int)), 12)),
            taken == cap(alnums(cs@.subrange(0, i as int)), 12).len(),
            taken <= 12,
        decreases cs@.len() - i,
    {
        let c = cs[i];
        proof {
            lemma_slug_step(cs@.subrange(0, i as int), c);
            assert(cs@.subrange(0, i + 1) =~= cs@.subrange(0, i as int).push(c));
        }
        if is_alnum_char(c) && taken < 12 {
            push_char(&mut out, lower_ascii(c));
            taken = taken + 1;
        }
        i = i + 1;
    }
    assert(cs@.subrange(0, cs@.len() as int) =~= cs@);
    if taken == 0 {
        let mut p = String::new();
        push_char(&mut p, 'p');
        push_char(&mut p, 'e');
        push_char(&mut p, 'r');
        push_char(&mut p, 's');
        push_char(&mut p, 'o');
        push_char(&mut p, 'n');
        proof {
            reveal_strlit("person");
            assert(p@ =~= "person"@);
        }
        p
    } else {
        out
    }
}

/// The id of a person named `name` created at `created_ms`.
pub fn make_person_id(name: &str, created_ms: u64) -> (r: String)
    ensures
        r@ == person_id(name@, created_ms),
{
    let mut id = name_slug(name);
    push_char(&mut id, '-');
    push_hex(&mut id, created_ms);
    proof {
        reveal_strlit("-");
        assert(id@ =~= slug(name@) + "-"@ + hex(created_ms as nat));
    }
    id
}


/// One stored hand pose: its class and the landmarks it was taken from.
pub struct GestureSample<L> {
    pub class: GestureClass,
    pub landmarks: L,
}

/// A person and everything they enrolled.
pub struct Person<E, L> {
    pub id: String,
    pub name: String,
    pub created_ms: u64,
    pub face: Vec<E>,
    pub voice: Vec<E>,
    pub gesture_samples: Vec<GestureSample<L>>,
    pub gesture_map: Option<Vec<(GestureClass, GestureAction)>>,
}

pub struct PersonView<E, L> {
    pub id: Seq<char>,
    pub name: Seq<char>,
    pub created_ms: u64,
    pub face: Seq<E>,
    pub voice: Seq<E>,
    pub gestures: Seq<GestureSample<L>>,
    pub map: Option<Seq<(GestureClass, GestureAction)>>,
}

impl<E, L> View for Person<E, L> {
    type V = PersonView<E, L>;

    open spec fn view(&self) -> PersonView<E, L> {
        PersonView {
            id: self.id@,
            name: self.name@,
            created_ms: self.created_ms,
            face: self.face@,
            voice: self.voice@,
            gestures: self.gesture_samples@,
            map: match self.gesture_map {
                Some(m) => Some(m@),
                None => None,
            },
        }
    }
}

/// A person just named, with nothing enrolled.
pub open spec fn fresh_person<E, L>(name: Seq<char>, created_ms: u64) -> PersonView<E, L> {
    PersonView {
        id: person_id(name, created_ms),
        name,
        created_ms,
        face: Seq::empty(),
        voice: Seq::empty(),
        gestures: Seq::empty(),
        map: None,
    }
}

/// `m` with the action of the first entry for class `c` set to `a` (unchanged if none).
pub open spec fn set_action(m: Seq<(GestureClass, GestureAction)>, c: GestureClass, a: GestureAction) -> Seq<(GestureClass, GestureAction)>
    decreases m.len(),
{
    if m.len() == 0 {
        m
    } else if m[0].0 == c {
        m.update(0, (c, a))
    } else {
        seq![m[0]] + set_action(m.drop_first(), c, a)
    }
}

/// The default map with the first `n` personal overrides applied in order.
pub open spec fn overrides(custom: Seq<(GestureClass, GestureAction)>, n: int) -> Seq<(GestureClass, GestureAction)>
    decreases n,
{
    if n <= 0 {
        default_map_spec()
    } else {
        let o = custom[n - 1];
        set_action(overrides(custom, n - 1), o.0, o.1)
    }
}

pub open spec fn personal_map(custom: Option<Seq<(GestureClass, GestureAction)>>) -> Seq<(GestureClass, GestureAction)> {
    match custom {
        Some(c) => overrides(c, c.len() as int),
        None => default_map_spec(),
    }
}

/// The action of the last override for class `c` among the first `n`.
pub open spec fn last_override(custom: Seq<(GestureClass, GestureAction)>, c: GestureClass, n: int) -> Option<GestureAction>
    decreases n,
{
    if n <= 0 {
        None
    } else if custom[n - 1].0 == c {
        Some(custom[n - 1].1)
    } else {
        last_override(custom, c, n - 1)
    }
}

impl<E, L> Person<E, L> {
    /// A person named `name`, created at `created_ms` (which also makes the id unique).
    pub fn new(name: &str, created_ms: u64) -> (p: Person<E, L>)
        ensures
            p@ == fresh_person::<E, L>(name@, created_ms),
    {
        let id = make_person_id(name, created_ms);
        let n = name.to_owned();
        Person {
            id,
            name: n,
            created_ms,
            face: Vec::new(),
            voice: Vec::new(),
            gesture_samples: Vec::new(),
            gesture_map: None,
        }
    }

    pub fn has_face(&self) -> (b: bool)
        ensures
            b == (self@.face.len() > 0),
    {
        self.face.len() > 0
    }

    pub fn has_voice(&self) -> (b: bool)
        ensures
            b == (self@.voice.len() > 0),
    {
        self.voice.len() > 0
    }

    /// The default gesture map with this person's overrides applied in order.
    pub fn map(&self) -> (m: GestureMap)
        ensures
            m@ == personal_map(self@.map),
    {
        let mut map = default_gesture_map();
        match &self.gesture_map {
            None => {},
            Some(custom) => {
                let mut k: usize = 0;
                while k < custom.len()
                    invariant
                        k <= custom@.len(),
                        map@ == overrides(custom@, k as int),
                        map@.len() == 5,
                    decreases custom@.len() - k,
                {
                    let (cls, act) = custom[k];
                    let mut i: usize = 0;
                    while i < 5 && map[i].0 != cls
                        invariant
                            i <= 5,
                            map@.len() == 5,
                            forall|j: int| 0 <= j < i ==> (#[trigger] map@[j]).0 != cls,
                        decreases 5 - i,
                    {
                        i = i + 1;
                    }
                    proof {
                        lemma_set_action_at(map@, cls, act, i as int);
                    }
                    if i < 5 {
                        map[i] = (cls, act);
                    }
                    k = k + 1;
                }
            },
        }
        map
    }
}

proof fn lemma_set_action_at(m: Seq<(GestureClass, GestureAction)>, c: GestureClass, a: GestureAction, i: int)
    requires
        0 <= i <= m.len(),
        forall|j: int| 0 <= j < i ==> (#[trigger] m[j]).0 != c,
        i < m.len() ==> m[i].0 == c,
    ensures
        set_action(m, c, a) == if i < m.len() { m.update(i, (c, a)) } else { m },
    decreases m.len(),
{
    if m.len() > 0 {
        if i > 0 {
            lemma_set_action_at(m.drop_first(), c, a, i - 1);
            if i < m.len() {
                assert(seq![m[0]] + m.drop_first().update(i - 1, (c, a)) =~= m.update(i, (c, a)));
            } else {
                assert(seq![m[0]] + m.drop_first() =~= m);
            }
        }
    }
}


/// Whether some entry of `m` is for class `c`.
pub open spec fn has_class(m: Seq<(GestureClass, GestureAction)>, c: GestureClass) -> bool
    decreases m.len(),
{
    m.len() > 0 && (m[0].0 == c || has_class(m.drop_first(), c))
}

proof fn lemma_set_action_lookup(m: Seq<(GestureClass, GestureAction)>, c: GestureClass, a: GestureAction, d: GestureClass)
    ensures
        map_lookup(set_action(m, c, a), d) == if d == c && has_class(m, c) { a } else { map_lookup(m, d) },
        has_class(set_action(m, c, a), d) == has_class(m, d),
    decreases m.len(),
{
    if m.len() > 0 {
        if m[0].0 == c {
            let n = m.update(0, (c, a));
            assert(n.drop_first() =~= m.drop_first());
        } else {
            lemma_set_action_lookup(m.drop_first(), c, a, d);
            let n = seq![m[0]] + set_action(m.drop_first(), c, a);
            assert(n.drop_first() =~= set_action(m.drop_first(), c, a));
        }
    }
}

proof fn lemma_overrides_lookup(custom: Seq<(GestureClass, GestureAction)>, n: int, c: GestureClass)
    requires
        0 <= n <= custom.len(),
    ensures
        has_class(overrides(custom, n), c) == has_class(default_map_spec(), c),
        map_lookup(overrides(custom, n), c) == match last_override(custom, c, n) {
            Some(a) => if has_class(default_map_spec(), c) { a } else { map_lookup(default_map_spec(), c) },
            None => map_lookup(default_map_spec(), c),
        },
    decreases n,
{
    if n > 0 {
        lemma_overrides_lookup(custom, n - 1, c);
        let o = custom[n - 1];
        lemma_overrides_lookup(custom, n - 1, o.0);
        lemma_set_action_lookup(overrides(custom, n - 1), o.0, o.1, c);
    }
}

/// The trainable classes are exactly the ones the default map has an entry for.
proof fn lemma_default_classes(c: GestureClass)
    ensures
        has_class(default_map_spec(), c) == (c != GestureClass::Unknown),
        c == GestureClass::Unknown ==> map_lookup(default_map_spec(), c) == GestureAction::Nothing,
{
    let m = default_map_spec();
    reveal_with_fuel(has_class, 6);
    reveal_with_fuel(map_lookup, 6);
    assert(m.drop_first() =~= seq![m[1], m[2], m[3], m[4]]);
    assert(m.drop_first().drop_first() =~= seq![m[2], m[3], m[4]]);
    assert(m.drop_first().drop_first().drop_first() =~= seq![m[3], m[4]]);
    assert(m.drop_first().drop_first().drop_first().drop_first() =~= seq![m[4]]);
    assert(m.drop_first().drop_first().drop_first().drop_first().drop_first() =~= Seq::<(GestureClass, GestureAction)>::empty());
}

/// A person's gesture map: for each trainable class the last personal
/// override for it wins, and a class never overridden keeps its default
/// action; an unrecognised hand maps to no action whatever the overrides.
pub proof fn law_last_override_wins(custom: Seq<(GestureClass, GestureAction)>, c: GestureClass)
    ensures
        map_lookup(personal_map(Some(custom)), c) == if c == GestureClass::Unknown {
            GestureAction::Nothing
        } else {
            match last_override(custom, c, custom.len() as int) {
                Some(a) => a,
                None => map_lookup(default_map_spec(), c),
            }
        },
{
    lemma_overrides_lookup(custom, custom.len() as int, c);
    lemma_default_classes(c);
}


/// Everyone enrolled, in the order they were added.
pub struct ProfileStore<E, L> {
    pub people: Vec<Person<E, L>>,
}

pub open spec fn views<E, L>(v: Seq<Person<E, L>>) -> Seq<PersonView<E, L>> {
    v.map_values(|p: Person<E, L>| p@)
}

impl<E, L> View for ProfileStore<E, L> {
    type V = Seq<PersonView<E, L>>;

    open spec fn view(&self) -> Seq<PersonView<E, L>> {
        views(self.people@)
    }
}

/// `i` is the first position holding id `id`.
pub open spec fn id_at<E, L>(s: Seq<PersonView<E, L>>, id: Seq<char>, i: int) -> bool {
    0 <= i < s.len() && s[i].id == id && forall|j: int| 0 <= j < i ==> (#[trigger] s[j]).id != id
}

pub open spec fn no_id<E, L>(s: Seq<PersonView<E, L>>, id: Seq<char>) -> bool {
    forall|j: int| 0 <= j < s.len() ==> (#[trigger] s[j]).id != id
}

/// `i` is the first position whose name equals `name` ignoring ASCII case.
pub open spec fn name_at<E, L>(s: Seq<PersonView<E, L>>, name: Seq<char>, i: int) -> bool {
    0 <= i < s.len() && lower(s[i].name) == lower(name) && forall|j: int| 0 <= j < i ==> lower((#[trigger] s[j]).name) != lower(name)
}

pub open spec fn no_name<E, L>(s: Seq<PersonView<E, L>>, name: Seq<char>) -> bool {
    forall|j: int| 0 <= j < s.len() ==> lower((#[trigger] s[j]).name) != lower(name)
}

/// `s` without the people whose id is `id`, order kept.
pub open spec fn without_id<E, L>(s: Seq<PersonView<E, L>>, id: Seq<char>) -> Seq<PersonView<E, L>>
    decreases s.len(),
{
    if s.len() == 0 {
        s
    } else if s.last().id == id {
        without_id(s.drop_last(), id)
    } else {
        without_id(s.drop_last(), id).push(s.last())
    }
}

/// The most recent `n` items.
pub open spec fn keep_last<A>(s: Seq<A>, n: int) -> Seq<A> {
    if s.len() > n { s.subrange(s.len() - n, s.len() as int) } else { s }
}

/// Stored face vectors per person.
pub const FACE_KEEP: usize = 16;
/// Stored voice vectors per person.
pub const VOICE_KEEP: usize = 12;

/// `g` without the samples of class `c`, order kept.
pub open spec fn without_class<L>(g: Seq<GestureSample<L>>, c: GestureClass) -> Seq<GestureSample<L>>
    decreases g.len(),
{
    if g.len() == 0 {
        g
    } else if g.last().class == c {
        without_class(g.drop_last(), c)
    } else {
        without_class(g.drop_last(), c).push(g.last())
    }
}

pub open spec fn samples_of<L>(c: GestureClass, lms: Seq<L>) -> Seq<GestureSample<L>> {
    Seq::new(lms.len(), |k: int| GestureSample { class: c, landmarks: lms[k] })
}

/// Where the first person with id `id` stands, if anyone has it.
pub open spec fn position_of<E, L>(s: Seq<PersonView<E, L>>, id: Seq<char>) -> Option<int> {
    if no_id(s, id) { None } else { Some(choose|i: int| id_at(s, id, i)) }
}

/// `s` with the person at the first position holding `id` replaced by `f` of them;
/// unchanged when nobody has that id.
pub open spec fn edit_person<E, L>(s: Seq<PersonView<E, L>>, id: Seq<char>, f: spec_fn(PersonView<E, L>) -> PersonView<E, L>) -> Seq<PersonView<E, L>> {
    if no_id(s, id) {
        s
    } else {
        let i = choose|i: int| id_at(s, id, i);
        s.update(i, f(s[i]))
    }
}

pub proof fn lemma_id_at_unique<E, L>(s: Seq<PersonView<E, L>>, id: Seq<char>, i: int, k: int)
    requires
        id_at(s, id, i),
        id_at(s, id, k),
    ensures
        i == k,
{
    if i < k {
        assert(s[i].id != id);
    } else if k < i {
        assert(s[k].id != id);
    }
}

pub proof fn lemma_edit_at<E, L>(s: Seq<PersonView<E, L>>, id: Seq<char>, i: int, f: spec_fn(PersonView<E, L>) -> PersonView<E, L>)
    requires
        id_at(s, id, i),
    ensures
        edit_person(s, id, f) == s.update(i, f(s[i])),
{
    assert(!no_id(s, id));
    let k = choose|k: int| id_at(s, id, k);
    lemma_id_at_unique(s, id, i, k);
}

/// The store after looking up `name`: unchanged when someone already has
/// the name (ASCII case ignored), else with a new person appended.
pub open spec fn after_upsert<E, L>(s: Seq<PersonView<E, L>>, name: Seq<char>, created_ms: u64) -> Seq<PersonView<E, L>> {
    if no_name(s, name) { s.push(fresh_person::<E, L>(name, created_ms)) } else { s }
}

/// The id that looking up `name` answers.
pub open spec fn upsert_id<E, L>(s: Seq<PersonView<E, L>>, name: Seq<char>, created_ms: u64) -> Seq<char> {
    if no_name(s, name) {
        person_id(name, created_ms)
    } else {
        s[choose|i: int| name_at(s, name, i)].id
    }
}

proof fn lemma_first_name<E, L>(s: Seq<PersonView<E, L>>, name: Seq<char>, k: int)
    requires
        0 <= k <= s.len(),
        forall|j: int| 0 <= j < k ==> lower((#[trigger] s[j]).name) != lower(name),
        !no_name(s, name),
    ensures
        exists|i: int| name_at(s, name, i),
    decreases s.len() - k,
{
    if k < s.len() {
        if lower(s[k].name) == lower(name) {
            assert(name_at(s, name, k));
        } else {
            lemma_first_name(s, name, k + 1);
        }
    }
}

proof fn lemma_name_choice<E, L>(s: Seq<PersonView<E, L>>, name: Seq<char>, i: int)
    requires
        name_at(s, name, i),
    ensures
        !no_name(s, name),
        (choose|k: int| name_at(s, name, k)) == i,
{
    assert(!no_name(s, name));
    let k = choose|k: int| name_at(s, name, k);
    if k < i {
        assert(lower(s[k].name) != lower(name));
    } else if i < k {
        assert(lower(s[i].name) != lower(name));
    }
}

proof fn lemma_views_replace<E, L>(ps: Seq<Person<E, L>>, i: int, p: Person<E, L>)
    requires
        0 <= i < ps.len(),
    ensures
        views(ps.remove(i).insert(i, p)) == views(ps).update(i, p@),
{
    assert(ps.remove(i).insert(i, p) =~= ps.update(i, p));
    assert(views(ps.update(i, p)) =~= views(ps).update(i, p@));
}

impl<E, L> ProfileStore<E, L> {
    pub fn empty() -> (s: Self)
        ensures
            s@ == Seq::<PersonView<E, L>>::empty(),
    {
        let s = ProfileStore { people: Vec::new() };
        assert(s@ =~= Seq::<PersonView<E, L>>::empty());
        s
    }

    pub fn people(&self) -> (r: &[Person<E, L>])
        ensures
            views(r@) == self@,
    {
        self.people.as_slice()
    }

    pub fn enrolled_count(&self) -> (n: usize)
        ensures
            n == self@.len(),
    {
        self.people.len()
    }

    /// Position of the first person with id `id`.
    pub fn position(&self, id: &str) -> (r: Option<usize>)
        ensures
            match r {
                Some(i) => id_at(self@, id@, i as int) && position_of(self@, id@) == Some(i as int),
                None => no_id(self@, id@) && position_of(self@, id@) is None,
            },
    {
        let key = id.to_owned();
        let mut i: usize = 0;
        while i < self.people.len()
            invariant
                key@ == id@,
                i <= self@.len(),
                self@.len() == self.people@.len(),
                forall|j: int| 0 <= j < i ==> (#[trigger] self@[j]).id != id@,
            decreases self.people@.len() - i,
        {
            if self.people[i].id == key {
                proof {
                    assert(id_at(self@, id@, i as int));
                    let k = choose|k: int| id_at(self@, id@, k);
                    lemma_id_at_unique(self@, id@, i as int, k);
                }
                return Some(i);
            }
            i = i + 1;
        }
        None
    }

    /// The first person with id `id`.
    pub fn get(&self, id: &str) -> (r: Option<&Person<E, L>>)
        ensures
            match r {
                Some(p) => exists|i: int| id_at(self@, id@, i) && p@ == self@[i],
                None => no_id(self@, id@),
            },
    {
        match self.position(id) {
            Some(i) => Some(&self.people[i]),
            None => None,
        }
    }

    /// The id of the person called `name` (ASCII case ignored); a new person
    /// created at `created_ms` is added first when nobody has that name.
    pub fn upsert_named(&mut self, name: &str, created_ms: u64) -> (id: String)
        ensures
            final(self)@ == after_upsert(old(self)@, name@, created_ms),
            id@ == upsert_id(old(self)@, name@, created_ms),
    {
        let mut i: usize = 0;
        while i < self.people.len()
            invariant
                i <= self@.len(),
                self@.len() == self.people@.len(),
                self@ == old(self)@,
                forall|j: int| 0 <= j < i ==> lower((#[trigger] self@[j]).name) != lower(name@),
            decreases self.people@.len() - i,
        {
            if eq_ignore_case(self.people[i].name.as_str(), name) {
                proof {
                    assert(name_at(self@, name@, i as int));
                    lemma_name_choice(self@, name@, i as int);
                }
                return self.people[i].id.clone();
            }
            i = i + 1;
        }
        let p: Person<E, L> = Person::new(name, created_ms);
        let id = make_person_id(name, created_ms);
        let ghost before = self.people@;
        self.people.push(p);
        assert(self@ =~= old(self)@.push(fresh_person::<E, L>(name@, created_ms)));
        id
    }

    /// Remove everyone with id `id`; whether anyone was removed.
    pub fn delete(&mut self, id: &str) -> (removed: bool)
        ensures
            final(self)@ == without_id(old(self)@, id@),
            removed == !no_id(old(self)@, id@),
    {
        let key = id.to_owned();
        let ghost all = self@;
        let mut rest = self.people.split_off(0);
        let mut removed = false;
        let ghost mut taken: int = 0;
        assert(self@ =~= Seq::<PersonView<E, L>>::empty());
        assert(views(rest@) =~= all);
        assert(all.subrange(0, 0) =~= Seq::<PersonView<E, L>>::empty());
        assert(all.subrange(0, all.len() as int) =~= all);
        while rest.len() > 0
            invariant
                key@ == id@,
                0 <= taken <= all.len(),
                rest@.len() == all.len() - taken,
                views(rest@) == all.subrange(taken, all.len() as int),
                self@ == without_id(all.subrange(0, taken), id@),
                removed == !no_id(all.subrange(0, taken), id@),
            decreases rest@.len(),
        {
            let ghost pre = all.subrange(0, taken);
            let ghost rv = rest@;
            proof {
                assert(views(rv)[0] == all.subrange(taken, all.len() as int)[0]);
            }
            let p = rest.remove(0);
            proof {
                assert(p@ == all[taken]);
                assert(all.subrange(0, taken + 1).drop_last() =~= pre);
                assert(all.subrange(0, taken + 1).last() == all[taken]);
                assert(rest@ =~= rv.drop_first());
                assert forall|k: int| 0 <= k < rest@.len() implies #[trigger] views(rest@)[k] == all.subrange(taken + 1, all.len() as int)[k] by {
                    assert(views(rv)[k + 1] == all.subrange(taken, all.len() as int)[k + 1]);
                }
                assert(views(rest@) =~= all.subrange(taken + 1, all.len() as int));
            }
            if p.id == key {
                removed = true;
            } else {
                self.people.push(p);
                assert(self@ =~= without_id(pre, id@).push(all[taken]));
            }
            proof {
                taken = taken + 1;
                let now = all.subrange(0, taken);
                if !no_id(pre, id@) {
                    let j = choose|j: int| 0 <= j < pre.len() && (#[trigger] pre[j]).id == id@;
                    assert(now[j] == pre[j]);
                }
                if !no_id(now, id@) {
                    let j = choose|j: int| 0 <= j < now.len() && (#[trigger] now[j]).id == id@;
                    if j < pre.len() {
                        assert(pre[j] == now[j]);
                    }
                }
            }
        }
        assert(all.subrange(0, taken) =~= all);
        removed
    }

    /// Append face vectors to the person with id `id`, keeping only the
    /// newest `FACE_KEEP`; nothing happens when nobody has that id.
    pub fn add_face(&mut self, id: &str, vecs: Vec<E>)
        ensures
            final(self)@ == edit_person(old(self)@, id@, |p: PersonView<E, L>| PersonView { face: keep_last(p.face + vecs@, FACE_KEEP as int), ..p }),
    {
        match self.position(id) {
            None => {},
            Some(i) => {
                let ghost ps = self.people@;
                let mut p = self.people.remove(i);
                let mut v = vecs;
                p.face.append(&mut v);
                if p.face.len() > FACE_KEEP {
                    let extra = p.face.len() - FACE_KEEP;
                    let tail = p.face.split_off(extra);
                    p.face = tail;
                }
                self.people.insert(i, p);
                proof {
                    lemma_views_replace(ps, i as int, p);
                    lemma_edit_at(old(self)@, id@, i as int, |p: PersonView<E, L>| PersonView { face: keep_last(p.face + vecs@, FACE_KEEP as int), ..p });
                    assert(p@ == PersonView { face: keep_last(old(self)@[i as int].face + vecs@, FACE_KEEP as int), ..old(self)@[i as int] });
                }
            },
        }
    }

    /// Append voice vectors to the person with id `id`, keeping only the
    /// newest `VOICE_KEEP`; nothing happens when nobody has that id.
    pub fn add_voice(&mut self, id: &str, vecs: Vec<E>)
        ensures
            final(self)@ == edit_person(old(self)@, id@, |p: PersonView<E, L>| PersonView { voice: keep_last(p.voice + vecs@, VOICE_KEEP as int), ..p }),
    {
        match self.position(id) {
            None => {},
            Some(i) => {
                let ghost ps = self.people@;
                let mut p = self.people.remove(i);
                let mut v = vecs;
                p.voice.append(&mut v);
                if p.voice.len() > VOICE_KEEP {
                    let extra = p.voice.len() - VOICE_KEEP;
                    let tail = p.voice.split_off(extra);
                    p.voice = tail;
                }
                self.people.insert(i, p);
                proof {
                    lemma_views_replace(ps, i as int, p);
                    lemma_edit_at(old(self)@, id@, i as int, |p: PersonView<E, L>| PersonView { voice: keep_last(p.voice + vecs@, VOICE_KEEP as int), ..p });
                    assert(p@ == PersonView { voice: keep_last(old(self)@[i as int].voice + vecs@, VOICE_KEEP as int), ..old(self)@[i as int] });
                }
            },
        }
    }

    /// Replace the face vectors of the person with id `id`.
    pub fn replace_face(&mut self, id: &str, vecs: Vec<E>)
        ensures
            final(self)@ == edit_person(old(self)@, id@, |p: PersonView<E, L>| PersonView { face: vecs@, ..p }),
    {
        match self.position(id) {
            None => {},
            Some(i) => {
                let ghost ps = self.people@;
                let mut p = self.people.remove(i);
                p.face = vecs;
                self.people.insert(i, p);
                proof {
                    lemma_views_replace(ps, i as int, p);
                    lemma_edit_at(old(self)@, id@, i as int, |p: PersonView<E, L>| PersonView { face: vecs@, ..p });
                    assert(p@ == PersonView { face: vecs@, ..old(self)@[i as int] });
                }
            },
        }
    }

    /// Replace the voice vectors of the person with id `id`.
    pub fn replace_voice(&mut self, id: &str, vecs: Vec<E>)
        ensures
            final(self)@ == edit_person(old(self)@, id@, |p: PersonView<E, L>| PersonView { voice: vecs@, ..p }),
    {
        match self.position(id) {
            None => {},
            Some(i) => {
                let ghost ps = self.people@;
                let mut p = self.people.remove(i);
                p.voice = vecs;
                self.people.insert(i, p);
                proof {
                    lemma_views_replace(ps, i as int, p);
                    lemma_edit_at(old(self)@, id@, i as int, |p: PersonView<E, L>| PersonView { voice: vecs@, ..p });
                    assert(p@ == PersonView { voice: vecs@, ..old(self)@[i as int] });
                }
            },
        }
    }

    /// `P1`, `P2`, ...: the name offered for the next person.
    pub fn next_default_name(&self) -> (s: String)
        requires
            self@.len() < usize::MAX,
        ensures
            s@ == "P"@ + dec((self@.len() + 1) as nat),
    {
        let n = self.people.len() + 1;
        let mut s = String::new();
        push_char(&mut s, 'P');
        push_decimal(&mut s, n as u64);
        proof {
            reveal_strlit("P");
            assert(s@ =~= "P"@ + dec((self@.len() + 1) as nat));
        }
        s
    }

    /// Replace the samples of `class` of the person with id `id` by one
    /// sample per landmark set, in order; other classes keep theirs.
    pub fn add_gesture_samples(&mut self, id: &str, class: GestureClass, landmarks: Vec<L>)
        ensures
            final(self)@ == edit_person(old(self)@, id@, |p: PersonView<E, L>| PersonView { gestures: without_class(p.gestures, class) + samples_of(class, landmarks@), ..p }),
    {
        match self.position(id) {
            None => {},
            Some(i) => {
                let ghost ps = self.people@;
                let mut p = self.people.remove(i);
                let ghost g0 = p.gesture_samples@;
                let mut rest = p.gesture_samples.split_off(0);
                let mut kept: Vec<GestureSample<L>> = Vec::new();
                let ghost mut taken: int = 0;
                assert(rest@ =~= g0.subrange(0, g0.len() as int));
                assert(g0.subrange(0, 0) =~= Seq::<GestureSample<L>>::empty());
                while rest.len() > 0
                    invariant
                        0 <= taken <= g0.len(),
                        rest@ == g0.subrange(taken, g0.len() as int),
                        kept@ == without_class(g0.subrange(0, taken), class),
                    decreases rest@.len(),
                {
                    let sample = rest.remove(0);
                    proof {
                        assert(g0.subrange(0, taken + 1).drop_last() =~= g0.subrange(0, taken));
                    }
                    if sample.class != class {
                        kept.push(sample);
                    }
                    proof {
                        taken = taken + 1;
                        assert(rest@ =~= g0.subrange(taken, g0.len() as int));
                    }
                }
                assert(g0.subrange(0, taken) =~= g0);
                let ghost base = kept@;
                let mut lms = landmarks;
                let ghost all = lms@;
                let ghost mut used: int = 0;
                while lms.len() > 0
                    invariant
                        0 <= used <= all.len(),
                        lms@ == all.subrange(used, all.len() as int),
                        kept@ == base + samples_of(class, all.subrange(0, used)),
                    decreases lms@.len(),
                {
                    let lm = lms.remove(0);
                    kept.push(GestureSample { class, landmarks: lm });
                    proof {
                        used = used + 1;
                        assert(lms@ =~= all.subrange(used, all.len() as int));
                        assert(kept@ =~= base + samples_of(class, all.subrange(0, used)));
                    }
                }
                assert(all.subrange(0, used) =~= all);
                p.gesture_samples = kept;
                self.people.insert(i, p);
                proof {
                    lemma_views_replace(ps, i as int, p);
                    lemma_edit_at(old(self)@, id@, i as int, |p: PersonView<E, L>| PersonView { gestures: without_class(p.gestures, class) + samples_of(class, landmarks@), ..p });
                    assert(p@ == PersonView { gestures: without_class(old(self)@[i as int].gestures, class) + samples_of(class, landmarks@), ..old(self)@[i as int] });
                }
            },
        }
    }
}


/// Names are matched ignoring ASCII case: looking up a name a second time
/// (in any case) adds nobody and answers the id the first lookup gave.
pub proof fn law_upsert_reuses_name<E, L>(s: Seq<PersonView<E, L>>, n1: Seq<char>, t1: u64, n2: Seq<char>, t2: u64)
    requires
        lower(n1) == lower(n2),
    ensures
        after_upsert(after_upsert(s, n1, t1), n2, t2) == after_upsert(s, n1, t1),
        upsert_id(after_upsert(s, n1, t1), n2, t2) == upsert_id(s, n1, t1),
{
    let s1 = after_upsert(s, n1, t1);
    if no_name(s, n1) {
        let i = s.len() as int;
        assert(s1[i].name == n1);
        assert forall|j: int| 0 <= j < i implies lower((#[trigger] s1[j]).name) != lower(n2) by {
            assert(s1[j] == s[j]);
        }
        assert(name_at(s1, n2, i));
        lemma_name_choice(s1, n2, i);
    } else {
        lemma_first_name(s, n1, 0);
        let i = choose|i: int| name_at(s, n1, i);
        assert(name_at(s, n2, i));
        lemma_name_choice(s, n2, i);
        lemma_name_choice(s, n1, i);
    }
}

/// After removing an id nobody has it, and removing an id nobody had changes nothing.
pub proof fn law_delete_removes_id<E, L>(s: Seq<PersonView<E, L>>, id: Seq<char>)
    ensures
        no_id(without_id(s, id), id),
        no_id(s, id) ==> without_id(s, id) == s,
    decreases s.len(),
{
    if s.len() > 0 {
        law_delete_removes_id(s.drop_last(), id);
        let r = without_id(s.drop_last(), id);
        if s.last().id != id {
            assert forall|j: int| 0 <= j < r.push(s.last()).len() implies (#[trigger] r.push(s.last())[j]).id != id by {
                if j < r.len() {
                    assert(r.push(s.last())[j] == r[j]);
                }
            }
        }
        if no_id(s, id) {
            assert forall|j: int| 0 <= j < s.drop_last().len() implies (#[trigger] s.drop_last()[j]).id != id by {
                assert(s.drop_last()[j] == s[j]);
            }
            assert(s.last() == s[s.len() - 1]);
            assert(s.drop_last().push(s.last()) =~= s);
        }
    }
}


/// Identity knobs kept next to the overlay's look settings; the match
/// thresholds are carried as an opaque value `F`.
#[derive(Clone, Copy, Debug)]
pub struct IdentitySettings<F> {
    pub gate: GateMode,
    pub gestures_need_face: bool,
    pub face_threshold: F,
    pub voice_threshold: F,
}

/// One line of identity settings applied (thresholds are read by the caller).
pub open spec fn identity_line<F>(s: IdentitySettings<F>, line: Seq<char>) -> IdentitySettings<F> {
    match entry_of(line) {
        None => s,
        Some((k, v)) => if k == "gate"@ {
            IdentitySettings { gate: gate_of_word(norm(v)), ..s }
        } else if k == "gestures_need_face"@ {
            IdentitySettings { gestures_need_face: yes_word(v), ..s }
        } else {
            s
        },
    }
}

pub open spec fn identity_fold<F>(s: IdentitySettings<F>, ls: Seq<Seq<char>>, n: int) -> IdentitySettings<F>
    decreases n,
{
    if n <= 0 { s } else { identity_line(identity_fold(s, ls, n - 1), ls[n - 1]) }
}

/// Read the identity keys of `txt` into `into`. The thresholds are floats,
/// which this library does not read: the trimmed texts of the
/// `face_threshold=` and `voice_threshold=` lines come back, in order.
pub fn parse_identity_ini<F: Copy>(txt: &str, into: &mut IdentitySettings<F>) -> (r: (Vec<Vec<char>>, Vec<Vec<char>>))
    ensures
        *final(into) == identity_fold(*old(into), lines_of(txt@), lines_of(txt@).len() as int),
        r.0@.len() == values_for(lines_of(txt@), "face_threshold"@, lines_of(txt@).len() as int).len(),
        forall|i: int| 0 <= i < r.0@.len() ==> (#[trigger] r.0@[i])@ == values_for(lines_of(txt@), "face_threshold"@, lines_of(txt@).len() as int)[i],
        r.1@.len() == values_for(lines_of(txt@), "voice_threshold"@, lines_of(txt@).len() as int).len(),
        forall|i: int| 0 <= i < r.1@.len() ==> (#[trigger] r.1@[i])@ == values_for(lines_of(txt@), "voice_threshold"@, lines_of(txt@).len() as int)[i],
{
    let ls = ini_lines(txt);
    let ghost lv = lines_of(txt@);
    let ghost start = *into;
    let mut face: Vec<Vec<char>> = Vec::new();
    let mut voice: Vec<Vec<char>> = Vec::new();
    let mut k: usize = 0;
    while k < ls.len()
        invariant
            k <= ls@.len(),
            ls@.len() == lv.len(),
            forall|i: int| 0 <= i < ls@.len() ==> (#[trigger] ls@[i])@ == lv[i],
            *into == identity_fold(start, lv, k as int),
            face@.len() == values_for(lv, "face_threshold"@, k as int).len(),
            forall|i: int| 0 <= i < face@.len() ==> (#[trigger] face@[i])@ == values_for(lv, "face_threshold"@, k as int)[i],
            voice@.len() == values_for(lv, "voice_threshold"@, k as int).len(),
            forall|i: int| 0 <= i < voice@.len() ==> (#[trigger] voice@[i])@ == values_for(lv, "voice_threshold"@, k as int)[i],
        decreases ls@.len() - k,
    {
        let line = &ls[k];
        assert(line@ == lv[k as int]);
        let ghost fb = face@;
        let ghost vb = voice@;
        match split_entry(line.as_slice()) {
            None => {},
            Some((key, v)) => {
                let t = trim_chars(&v);
                if eq_str(&key, "gate") {
                    let w = string_of(&v);
                    into.gate = GateMode::parse(w.as_str());
                } else if eq_str(&key, "gestures_need_face") {
                    let lt = lower_slice(&t);
                    into.gestures_need_face = eq_str(&t, "1") || eq_str(&lt, "true");
                } else if eq_str(&key, "face_threshold") {
                    face.push(t);
                } else if eq_str(&key, "voice_threshold") {
                    voice.push(t);
                }
            },
        }
        proof {
            reveal_strlit("gate");
            reveal_strlit("gestures_need_face");
            reveal_strlit("face_threshold");
            reveal_strlit("voice_threshold");
            assert("gate"@[0] != "face_threshold"@[0] && "gate"@[0] != "voice_threshold"@[0]);
            assert("gestures_need_face"@[0] != "face_threshold"@[0] && "gestures_need_face"@[0] != "voice_threshold"@[0]);
            assert("face_threshold"@[0] != "voice_threshold"@[0]);
            assert forall|i: int| 0 <= i < face@.len() implies (#[trigger] face@[i])@ == values_for(lv, "face_threshold"@, k + 1)[i] by {
                if i < fb.len() {
                    assert(face@[i] == fb[i]);
                }
            }
            assert forall|i: int| 0 <= i < voice@.len() implies (#[trigger] voice@[i])@ == values_for(lv, "voice_threshold"@, k + 1)[i] by {
                if i < vb.len() {
                    assert(voice@[i] == vb[i]);
                }
            }
        }
        k = k + 1;
    }
    (face, voice)
}

} // verus!
