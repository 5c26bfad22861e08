//! Sets of emotions, one per kind, and the rules by which emotions in a set
//! act on one another.

use crate::colors::Rgba;
use crate::contagion::emotions::{
    lemma_fading, Emotion, EmotionData, EmotionType, Kind, FAINT, NOTABLE,
};
use crate::fixed::{add_capped, fraction, least, monus, ratio, saturated, sub_floor, UNIT};
use vstd::prelude::*;

verus! {

/// No two emotions of `s` are of the same kind.
pub open spec fn distinct(s: Seq<EmotionData>) -> bool {
    forall|i: int, j: int| 0 <= i < j < s.len() ==> (#[trigger] s[i]).kind != (#[trigger] s[j]).kind
}

/// `s` holds an emotion of `kind`.
pub open spec fn holds(s: Seq<EmotionData>, kind: Kind) -> bool {
    exists|i: int| 0 <= i < s.len() && (#[trigger] s[i]).kind == kind
}

/// Where `s` holds its emotion of `kind`.
pub open spec fn place_of(s: Seq<EmotionData>, kind: Kind) -> int {
    choose|i: int| 0 <= i < s.len() && (#[trigger] s[i]).kind == kind
}

/// The intensity of `kind` in `s`; zero where `s` holds none.
pub open spec fn intensity_of(s: Seq<EmotionData>, kind: Kind) -> u64 {
    if holds(s, kind) {
        s[place_of(s, kind)].intensity
    } else {
        0
    }
}

/// `s` after `e` has joined it: where `s` holds an emotion of that kind, that
/// emotion gains the intensity of `e`; otherwise `e` is added at the end.
pub open spec fn merged(s: Seq<EmotionData>, e: EmotionData) -> Seq<EmotionData> {
    if holds(s, e.kind) {
        s.update(place_of(s, e.kind), s[place_of(s, e.kind)].raised(e.intensity))
    } else {
        s.push(e)
    }
}

/// The sum of the intensities in `s`.
pub open spec fn total(s: Seq<EmotionData>) -> nat
    decreases s.len(),
{
    if s.len() == 0 {
        0
    } else {
        total(s.drop_last()) + s.last().intensity as nat
    }
}

/// `s` after `delta_time`: every emotion has faded, and those that are dead
/// after it are gone.
pub open spec fn faded(s: Seq<EmotionData>, delta_time: u64) -> Seq<EmotionData>
    decreases s.len(),
{
    if s.len() == 0 {
        Seq::empty()
    } else if s.last().faded(delta_time).dead() {
        faded(s.drop_last(), delta_time)
    } else {
        faded(s.drop_last(), delta_time).push(s.last().faded(delta_time))
    }
}

/// An emotion more intense than `floor` passes something on at `distance`
/// where what it offers there is more than a hundredth.
pub open spec fn passes(e: EmotionData, distance: u64, floor: u64) -> bool {
    e.intensity > floor && e.spread(distance) > FAINT
}

/// What arrives of `e` at `distance`: an emotion of the same kind, with the
/// defaults of the kind, as intense as what `e` offers there.
pub open spec fn gift(e: EmotionData, distance: u64) -> EmotionData {
    EmotionData::fresh(e.kind, e.spread(distance) as u64)
}

/// `into` after it has taken, in order, what each emotion of `from` passes
/// on at `distance`.
pub open spec fn absorbed(
    into: Seq<EmotionData>,
    from: Seq<EmotionData>,
    distance: u64,
    floor: u64,
) -> Seq<EmotionData>
    decreases from.len(),
{
    if from.len() == 0 {
        into
    } else if passes(from.last(), distance, floor) {
        merged(absorbed(into, from.drop_last(), distance, floor), gift(from.last(), distance))
    } else {
        absorbed(into, from.drop_last(), distance, floor)
    }
}

/// The sum of what the emotions of `from` pass on at `distance`.
pub open spec fn passed_on(from: Seq<EmotionData>, distance: u64, floor: u64) -> nat
    decreases from.len(),
{
    if from.len() == 0 {
        0
    } else {
        passed_on(from.drop_last(), distance, floor) + if passes(from.last(), distance, floor) {
            from.last().spread(distance) as nat
        } else {
            0
        }
    }
}

/// Joining keeps a set in order: its kinds stay distinct, and its emotions
/// stay within bounds where the newcomer is.
pub proof fn lemma_merged_keeps_order(s: Seq<EmotionData>, e: EmotionData)
    requires
        distinct(s),
    ensures
        distinct(merged(s, e)),
        all_bounded(s) && e.bounded() ==> all_bounded(merged(s, e)),
        forall|kind: Kind| #[trigger] holds(merged(s, e), kind) <==> holds(s, kind) || kind == e.kind,
{
    let m = merged(s, e);
    if holds(s, e.kind) {
        let p = place_of(s, e.kind);
        assert forall|i: int, j: int| 0 <= i < j < m.len() implies (#[trigger] m[i]).kind != (
        #[trigger] m[j]).kind by {
            assert(m[i].kind == s[i].kind && m[j].kind == s[j].kind);
        }
        if all_bounded(s) && e.bounded() {
            assert forall|i: int| 0 <= i < m.len() implies (#[trigger] m[i]).bounded() by {
                assert(s[i].bounded());
            }
        }
        assert forall|kind: Kind| #[trigger] holds(m, kind) <==> holds(s, kind) || kind
            == e.kind by {
            if holds(m, kind) {
                let i = place_of(m, kind);
                assert(s[i].kind == kind);
            }
            if holds(s, kind) {
                let i = place_of(s, kind);
                assert(m[i].kind == kind);
            }
        }
    } else {
        assert forall|i: int, j: int| 0 <= i < j < m.len() implies (#[trigger] m[i]).kind != (
        #[trigger] m[j]).kind by {
            if j == s.len() {
                assert(m[i] == s[i]);
            } else {
                assert(m[i] == s[i] && m[j] == s[j]);
            }
        }
        if all_bounded(s) && e.bounded() {
            assert forall|i: int| 0 <= i < m.len() implies (#[trigger] m[i]).bounded() by {
                if i < s.len() {
                    assert(s[i].bounded());
                }
            }
        }
        assert forall|kind: Kind| #[trigger] holds(m, kind) <==> holds(s, kind) || kind
            == e.kind by {
            if holds(m, kind) {
                let i = place_of(m, kind);
                if i < s.len() {
                    assert(s[i].kind == kind);
                }
            }
            if holds(s, kind) {
                let i = place_of(s, kind);
                assert(m[i].kind == kind);
            }
            if kind == e.kind {
                assert(m[s.len() as int].kind == kind);
            }
        }
    }
}

/// The emotion at `i` is the strongest of `s`: none is more intense, and none
/// before it is as intense.
pub open spec fn is_strongest(s: Seq<EmotionData>, i: int) -> bool {
    &&& 0 <= i < s.len()
    &&& forall|j: int| 0 <= j < s.len() ==> (#[trigger] s[j]).intensity <= s[i].intensity
    &&& forall|j: int| 0 <= j < i ==> (#[trigger] s[j]).intensity < s[i].intensity
}

/// Where a non-empty `s` holds its strongest emotion.
pub open spec fn strongest(s: Seq<EmotionData>) -> int {
    choose|i: int| is_strongest(s, i)
}

/// A set has one strongest emotion at most: among emotions of equal
/// intensity the one that joined first is chosen, whatever the run.
pub proof fn lemma_strongest_is_unique(s: Seq<EmotionData>, i: int, j: int)
    requires
        is_strongest(s, i),
        is_strongest(s, j),
    ensures
        i == j,
{
    if i < j {
        assert(s[i].intensity < s[j].intensity);
    }
    if j < i {
        assert(s[j].intensity < s[i].intensity);
    }
}

/// One of the three colour channels of `c`: red, green, blue for 0, 1, 2.
pub open spec fn channel(c: Rgba, which: int) -> u64 {
    if which == 0 {
        c.r
    } else if which == 1 {
        c.g
    } else {
        c.b
    }
}

/// The sum over `s` of a colour channel weighted by intensity.
pub open spec fn weighted(s: Seq<EmotionData>, which: int) -> nat
    decreases s.len(),
{
    if s.len() == 0 {
        0
    } else {
        weighted(s.drop_last(), which) + (channel(s.last().color, which) * s.last().intensity) as nat
    }
}

/// Every emotion of `s` is within bounds and has a colour within gamut.
pub open spec fn displayable(s: Seq<EmotionData>) -> bool {
    forall|i: int| 0 <= i < s.len() ==> (#[trigger] s[i]).bounded() && s[i].color.in_gamut()
}

/// Every emotion of `s` is within bounds.
pub open spec fn all_bounded(s: Seq<EmotionData>) -> bool {
    forall|i: int| 0 <= i < s.len() ==> (#[trigger] s[i]).bounded()
}

/// The colour of a set: white for a set without intensity; otherwise the
/// average of its colours weighted by intensity, as opaque as the mean
/// intensity, between one tenth and one.
pub open spec fn mixed(s: Seq<EmotionData>) -> Rgba {
    if s.len() == 0 || total(s) == 0 {
        Rgba::of(1_000_000, 1_000_000, 1_000_000, 1_000_000)
    } else {
        Rgba::of(
            weighted(s, 0) as int / total(s) as int,
            weighted(s, 1) as int / total(s) as int,
            weighted(s, 2) as int / total(s) as int,
            if total(s) / s.len() < NOTABLE {
                NOTABLE as int
            } else {
                least(total(s) as int / s.len() as int, UNIT as int)
            },
        )
    }
}

/// The four intensities that the rules of interaction read.
pub struct Mood {
    pub joy: u64,
    pub sadness: u64,
    pub anger: u64,
    pub love: u64,
}

/// Joy above this and sadness above `SADNESS_LEVEL` neutralise each other.
pub const JOY_LEVEL: u64 = 5_000_000;

pub const SADNESS_LEVEL: u64 = 3_000_000;

/// The most that joy and sadness take from each other in one pass.
pub const NEUTRALIZATION_CAP: u64 = 2_000_000;

/// Anger from this level on wears down joy and love.
pub const ANGER_LEVEL: u64 = 7_000_000;

/// Love from this level on heals sadness and anger.
pub const LOVE_LEVEL: u64 = 6_000_000;

/// Joy, sadness, anger and love above this sum bring anxiety.
pub const OVERLOAD_LEVEL: u64 = 15_000_000;

/// The anxiety that an overload adds in one pass.
pub const ANXIETY_STEP: u64 = 500_000;

/// The most that anxiety reaches by overload.
pub const ANXIETY_CAP: u64 = 10_000_000;

impl Mood {
    /// The mood of a set.
    pub open spec fn of(s: Seq<EmotionData>) -> Mood {
        Mood {
            joy: intensity_of(s, Kind::Joy),
            sadness: intensity_of(s, Kind::Sadness),
            anger: intensity_of(s, Kind::Anger),
            love: intensity_of(s, Kind::Love),
        }
    }

    /// What joy and sadness take from each other: three tenths of the weaker
    /// of the two, at most `NEUTRALIZATION_CAP`, where both are high enough.
    pub open spec fn neutralization(self) -> int {
        if self.joy > JOY_LEVEL && self.sadness > SADNESS_LEVEL {
            least(
                ratio(least(self.joy as int, self.sadness as int), 3, 10),
                NEUTRALIZATION_CAP as int,
            )
        } else {
            0
        }
    }

    /// What anger takes from joy: a fifth of the anger, from `ANGER_LEVEL` on.
    pub open spec fn anger_on_joy(self) -> int {
        if self.anger >= ANGER_LEVEL {
            ratio(self.anger as int, 1, 5)
        } else {
            0
        }
    }

    /// What anger takes from love: three twentieths of the anger.
    pub open spec fn anger_on_love(self) -> int {
        if self.anger >= ANGER_LEVEL {
            ratio(self.anger as int, 3, 20)
        } else {
            0
        }
    }

    /// What love takes from sadness: a tenth of the love, from `LOVE_LEVEL` on.
    pub open spec fn love_on_sadness(self) -> int {
        if self.love >= LOVE_LEVEL {
            ratio(self.love as int, 1, 10)
        } else {
            0
        }
    }

    /// What love takes from anger: three twentieths of the love.
    pub open spec fn love_on_anger(self) -> int {
        if self.love >= LOVE_LEVEL {
            ratio(self.love as int, 3, 20)
        } else {
            0
        }
    }

    /// The four emotions together exceed `OVERLOAD_LEVEL`.
    pub open spec fn overloaded(self) -> bool {
        self.joy + self.sadness + self.anger + self.love > OVERLOAD_LEVEL
    }

    /// What an emotion of `kind` loses in a pass.
    pub open spec fn loss(self, kind: Kind) -> int {
        match kind {
            Kind::Joy => self.neutralization() + self.anger_on_joy(),
            Kind::Sadness => self.neutralization() + self.love_on_sadness(),
            Kind::Love => self.anger_on_love(),
            Kind::Anger => self.love_on_anger(),
            _ => 0,
        }
    }

    /// An emotion after a pass in this mood: anxiety grows under overload, up
    /// to `ANXIETY_CAP`; every other emotion loses what its kind loses, down
    /// to zero.
    pub open spec fn settle(self, e: EmotionData) -> EmotionData {
        if e.kind == Kind::Anxiety {
            if self.overloaded() {
                e.at(least(e.intensity + ANXIETY_STEP, ANXIETY_CAP as int))
            } else {
                e
            }
        } else {
            e.at(monus(e.intensity as int, self.loss(e.kind)))
        }
    }
}

/// A set after one pass of the rules of interaction. Every rule reads the
/// intensities from before the pass. Anxiety joins an overloaded set that
/// held none.
pub open spec fn interacted(s: Seq<EmotionData>) -> Seq<EmotionData> {
    let mood = Mood::of(s);
    let settled = Seq::new(s.len(), |i: int| mood.settle(s[i]));
    if mood.overloaded() && !holds(s, Kind::Anxiety) {
        settled.push(EmotionData::fresh(Kind::Anxiety, ANXIETY_STEP))
    } else {
        settled
    }
}

/// A pass of the rules of interaction never raises joy, sadness, anger or
/// love, and takes from each exactly its loss, stopping at zero.
pub proof fn lemma_interaction_floor(s: Seq<EmotionData>, kind: Kind)
    requires
        distinct(s),
        kind != Kind::Anxiety,
    ensures
        holds(interacted(s), kind) == holds(s, kind),
        intensity_of(interacted(s), kind) == monus(
            intensity_of(s, kind) as int,
            Mood::of(s).loss(kind),
        ),
        0 <= intensity_of(interacted(s), kind) <= intensity_of(s, kind),
{
    let mood = Mood::of(s);
    let after = interacted(s);
    assert forall|i: int| 0 <= i < s.len() implies (#[trigger] after[i]).kind == s[i].kind by {}
    if holds(s, kind) {
        let i = place_of(s, kind);
        assert(after[i].kind == kind);
        assert(holds(after, kind));
        let j = place_of(after, kind);
        if j < s.len() {
            assert(s[j].kind == kind);
            if i < j {
                assert(s[i].kind != s[j].kind);
            }
            if j < i {
                assert(s[j].kind != s[i].kind);
            }
        }
        assert(j == i);
    } else {
        if holds(after, kind) {
            let j = place_of(after, kind);
            if j < s.len() {
                assert(s[j].kind == kind);
            }
            assert(false);
        }
    }
}

/// The rules of interaction leave a set within bounds as it is: none of its
/// emotions reaches a level at which a rule sets in.
pub proof fn lemma_calm_set_is_settled(s: Seq<EmotionData>)
    requires
        all_bounded(s),
    ensures
        interacted(s) == s,
{
    let mood = Mood::of(s);
    assert forall|kind: Kind| #[trigger] intensity_of(s, kind) <= UNIT by {
        if holds(s, kind) {
            assert(s[place_of(s, kind)].bounded());
        }
    }
    assert(intensity_of(s, Kind::Joy) <= UNIT);
    assert(intensity_of(s, Kind::Sadness) <= UNIT);
    assert(intensity_of(s, Kind::Anger) <= UNIT);
    assert(intensity_of(s, Kind::Love) <= UNIT);
    assert(!mood.overloaded());
    assert forall|i: int| 0 <= i < s.len() implies mood.settle(#[trigger] s[i]) == s[i] by {
        assert(mood.loss(s[i].kind) == 0);
    }
    assert(interacted(s) =~= s);
}

/// The values of a list of emotions.
pub open spec fn values_of(emotions: Seq<Emotion>) -> Seq<EmotionData> {
    Seq::new(emotions.len(), |i: int| emotions[i]@)
}

/// A set of emotions, one of each kind at most, in the order in which the
/// kinds joined.
#[derive(Debug)]
pub struct EmotionSet {
    pub emotions: Vec<Emotion>,
    pub total_capacity: u64,
}

impl View for EmotionSet {
    type V = Seq<EmotionData>;

    open spec fn view(&self) -> Seq<EmotionData> {
        values_of(self.emotions@)
    }
}

proof fn lemma_place(s: Seq<EmotionData>, i: int)
    requires
        distinct(s),
        0 <= i < s.len(),
    ensures
        holds(s, s[i].kind),
        place_of(s, s[i].kind) == i,
{
    let j = place_of(s, s[i].kind);
    if i < j {
        assert(s[i].kind != s[j].kind);
    }
    if j < i {
        assert(s[j].kind != s[i].kind);
    }
}

impl EmotionSet {
    /// No kind occurs twice.
    pub open spec fn wf(&self) -> bool {
        distinct(self@)
    }

    /// The empty set.
    pub fn new() -> (set: EmotionSet)
        ensures
            set@ == Seq::<EmotionData>::empty(),
            set.total_capacity == UNIT,
            set.wf(),
    {
        let set = EmotionSet { emotions: Vec::new(), total_capacity: UNIT };
        assert(set@ =~= Seq::<EmotionData>::empty());
        set
    }

    fn find(&self, kind: &EmotionType) -> (place: Option<usize>)
        requires
            self.wf(),
        ensures
            place is None <==> !holds(self@, kind@),
            place matches Some(i) ==> i < self@.len() && self@[i as int].kind == kind@ && i
                == place_of(self@, kind@),
    {
        let mut i: usize = 0;
        while i < self.emotions.len()
            invariant
                i <= self.emotions@.len(),
                self.wf(),
                forall|j: int| 0 <= j < i ==> (#[trigger] self@[j]).kind != kind@,
            decreases self.emotions@.len() - i,
        {
            assert(self@[i as int] == self.emotions@[i as int]@);
            if self.emotions[i].emotion_type == *kind {
                proof {
                    lemma_place(self@, i as int);
                }
                return Some(i);
            }
            i += 1;
        }
        None
    }

    /// Lets an emotion join the set: it is merged into the emotion of its
    /// kind where the set holds one, and added otherwise.
    pub fn add_emotion(&mut self, emotion: Emotion)
        requires
            old(self).wf(),
        ensures
            final(self).wf(),
            final(self)@ == merged(old(self)@, emotion@),
            final(self).total_capacity == old(self).total_capacity,
            all_bounded(old(self)@) && emotion@.bounded() ==> all_bounded(final(self)@),
    {
        let ghost before = self@;
        proof {
            lemma_merged_keeps_order(before, emotion@);
        }
        match self.find(&emotion.emotion_type) {
            Some(i) => {
                assert(before[i as int] == self.emotions@[i as int]@);
                self.emotions[i].add_intensity(emotion.intensity);
                assert(self@ =~= before.update(i as int, before[i as int].raised(emotion.intensity)));
            },
            None => {
                self.emotions.push(emotion);
                assert(self@ =~= before.push(emotion@));
            },
        }
    }

    /// Takes, in order, what each emotion of `from` that is more intense than
    /// `floor` passes on at `distance`, and returns the sum of what was
    /// passed on, cut off at the largest `u64`.
    pub fn absorb(&mut self, from: &EmotionSet, distance: u64, floor: u64) -> (taken: u64)
        requires
            old(self).wf(),
        ensures
            final(self).wf(),
            final(self)@ == absorbed(old(self)@, from@, distance, floor),
            final(self).total_capacity == old(self).total_capacity,
            taken == saturated(passed_on(from@, distance, floor) as int),
            all_bounded(old(self)@) ==> all_bounded(final(self)@),
    {
        let mut taken: u64 = 0;
        let mut i: usize = 0;
        while i < from.emotions.len()
            invariant
                i <= from.emotions@.len(),
                self.wf(),
                self.total_capacity == old(self).total_capacity,
                self@ == absorbed(old(self)@, from@.take(i as int), distance, floor),
                taken == saturated(passed_on(from@.take(i as int), distance, floor) as int),
                all_bounded(old(self)@) ==> all_bounded(self@),
            decreases from.emotions@.len() - i,
        {
            let source = &from.emotions[i];
            proof {
                assert(from@.take(i + 1).drop_last() =~= from@.take(i as int));
                assert(from@.take(i + 1).last() == from.emotions@[i as int]@);
            }
            if source.intensity > floor {
                let amount = source.calculate_spread(distance);
                if amount > FAINT {
                    self.add_emotion(Emotion::new(source.emotion_type.clone(), amount));
                    taken = add_capped(taken, amount, u64::MAX);
                }
            }
            i += 1;
        }
        assert(from@.take(i as int) =~= from@);
        taken
    }

    /// The intensity of a kind in the set; zero where the set holds none.
    pub fn get_intensity(&self, emotion_type: &EmotionType) -> (intensity: u64)
        requires
            self.wf(),
        ensures
            intensity == intensity_of(self@, emotion_type@),
    {
        match self.find(emotion_type) {
            Some(i) => {
                assert(self@[i as int] == self.emotions@[i as int]@);
                self.emotions[i].intensity
            },
            None => 0,
        }
    }

    /// The strongest emotion of the set, if it holds any.
    pub fn dominant_emotion(&self) -> (dominant: Option<&Emotion>)
        ensures
            dominant is None <==> self@.len() == 0,
            dominant matches Some(e) ==> is_strongest(self@, strongest(self@)) && e@
                == self@[strongest(self@)],
    {
        if self.emotions.len() == 0 {
            return None;
        }
        let mut best: usize = 0;
        let mut i: usize = 1;
        while i < self.emotions.len()
            invariant
                0 <= best < i <= self.emotions@.len(),
                forall|j: int| 0 <= j < i ==> (#[trigger] self@[j]).intensity <= self@[best as int].intensity,
                forall|j: int| 0 <= j < best ==> (#[trigger] self@[j]).intensity < self@[best as int].intensity,
            decreases self.emotions@.len() - i,
        {
            assert(self@[i as int] == self.emotions@[i as int]@);
            assert(self@[best as int] == self.emotions@[best as int]@);
            if self.emotions[i].intensity > self.emotions[best].intensity {
                best = i;
            }
            i += 1;
        }
        proof {
            assert(is_strongest(self@, best as int));
            lemma_strongest_is_unique(self@, best as int, strongest(self@));
            assert(self@[best as int] == self.emotions@[best as int]@);
        }
        Some(&self.emotions[best])
    }

    /// The strongest emotion of the set, if it holds any.
    pub fn get_dominant_emotion(&self) -> (dominant: Option<&Emotion>)
        ensures
            dominant is None <==> self@.len() == 0,
            dominant matches Some(e) ==> is_strongest(self@, strongest(self@)) && e@
                == self@[strongest(self@)],
    {
        self.dominant_emotion()
    }

    /// Lets every emotion fade for `delta_time` and drops the dead ones.
    pub fn update(&mut self, delta_time: u64)
        requires
            old(self).wf(),
        ensures
            final(self).wf(),
            final(self)@ == faded(old(self)@, delta_time),
            final(self).total_capacity == old(self).total_capacity,
            all_bounded(old(self)@) ==> all_bounded(final(self)@),
    {
        let ghost before = self@;
        let mut kept: Vec<Emotion> = Vec::new();
        let mut i: usize = 0;
        while i < self.emotions.len()
            invariant
                i <= self.emotions@.len(),
                before == self@,
                distinct(before),
                values_of(kept@) == faded(before.take(i as int), delta_time),
                distinct(values_of(kept@)),
                forall|a: int|
                    0 <= a < kept@.len() ==> exists|j: int|
                        0 <= j < i && (#[trigger] before[j]).kind == (#[trigger] values_of(
                            kept@,
                        )[a]).kind,
                all_bounded(before) ==> all_bounded(values_of(kept@)),
            decreases self.emotions@.len() - i,
        {
            assert(before[i as int] == self.emotions@[i as int]@);
            let mut emotion = self.emotions[i].clone();
            emotion.update(delta_time);
            proof {
                assert(before.take(i + 1).drop_last() =~= before.take(i as int));
                assert(before.take(i + 1).last() == before[i as int]);
            }
            if !emotion.is_dead() {
                let ghost old_kept = values_of(kept@);
                kept.push(emotion);
                proof {
                    assert(values_of(kept@) =~= old_kept.push(emotion@));
                    let now = values_of(kept@);
                    assert forall|a: int, b: int| 0 <= a < b < now.len() implies (#[trigger] now[a]).kind
                        != (#[trigger] now[b]).kind by {
                        if b == now.len() - 1 {
                            let j = choose|j: int|
                                0 <= j < i && (#[trigger] before[j]).kind == old_kept[a].kind;
                            assert(before[j].kind != before[i as int].kind);
                        } else {
                            assert(old_kept[a].kind != old_kept[b].kind);
                        }
                    }
                    assert forall|a: int| 0 <= a < now.len() implies exists|j: int|
                        0 <= j < i + 1 && (#[trigger] before[j]).kind == (#[trigger] now[a]).kind by {
                        if a == now.len() - 1 {
                            assert(before[i as int].kind == now[a].kind);
                        } else {
                            let j = choose|j: int|
                                0 <= j < i && (#[trigger] before[j]).kind == old_kept[a].kind;
                            assert(before[j].kind == now[a].kind);
                        }
                    }
                    if all_bounded(before) {
                        assert(before[i as int].bounded());
                        lemma_fading(before[i as int], delta_time);
                        assert forall|a: int| 0 <= a < now.len() implies (#[trigger] now[a]).bounded() by {
                            if a < now.len() - 1 {
                                assert(old_kept[a].bounded());
                            }
                        }
                    }
                }
            }
            i += 1;
        }
        assert(before.take(i as int) =~= before);
        self.emotions = kept;
    }

    /// The sum of the intensities, cut off at the largest `u64`.
    pub fn total_intensity(&self) -> (sum: u64)
        ensures
            sum == saturated(total(self@) as int),
    {
        let wide = self.wide_total();
        if wide > u64::MAX as u128 {
            u64::MAX
        } else {
            wide as u64
        }
    }

    /// The sum of the intensities, cut off at the largest `u64`.
    pub fn get_total_intensity(&self) -> (sum: u64)
        ensures
            sum == saturated(total(self@) as int),
    {
        self.total_intensity()
    }

    fn wide_total(&self) -> (sum: u128)
        ensures
            sum == total(self@),
    {
        let mut sum: u128 = 0;
        let mut i: usize = 0;
        while i < self.emotions.len()
            invariant
                i <= self.emotions@.len(),
                sum == total(self@.take(i as int)),
                sum <= i * 0xffff_ffff_ffff_ffff,
            decreases self.emotions@.len() - i,
        {
            proof {
                assert(self@.take(i + 1).drop_last() =~= self@.take(i as int));
                assert(self@.take(i + 1).last() == self.emotions@[i as int]@);
            }
            sum = sum + self.emotions[i].intensity as u128;
            i += 1;
        }
        assert(self@.take(i as int) =~= self@);
        sum
    }

    /// Whether the set holds no emotion to speak of: none at all, or less
    /// than a hundredth in sum.
    pub fn is_empty(&self) -> (empty: bool)
        ensures
            empty == (self@.len() == 0 || total(self@) < FAINT),
    {
        self.emotions.len() == 0 || self.wide_total() < FAINT as u128
    }

    fn wide_weighted(&self, which: u8) -> (sum: u128)
        requires
            displayable(self@),
            which <= 2,
        ensures
            sum == weighted(self@, which as int),
    {
        let mut sum: u128 = 0;
        let mut i: usize = 0;
        while i < self.emotions.len()
            invariant
                i <= self.emotions@.len(),
                displayable(self@),
                which <= 2,
                sum == weighted(self@.take(i as int), which as int),
                sum <= i * 1_000_000_000_000,
            decreases self.emotions@.len() - i,
        {
            let emotion = &self.emotions[i];
            let level: u64 = if which == 0 {
                emotion.color.r
            } else if which == 1 {
                emotion.color.g
            } else {
                emotion.color.b
            };
            proof {
                assert(self@.take(i + 1).drop_last() =~= self@.take(i as int));
                assert(self@.take(i + 1).last() == self.emotions@[i as int]@);
                assert(self@[i as int] == self.emotions@[i as int]@);
                assert(self@[i as int].bounded() && self@[i as int].color.in_gamut());
                assert(level * emotion.intensity <= 1_000_000 * 1_000_000) by (nonlinear_arith)
                    requires
                        level <= 1_000_000,
                        emotion.intensity <= 1_000_000,
                ;
            }
            sum = sum + (level as u128) * (emotion.intensity as u128);
            i += 1;
        }
        assert(self@.take(i as int) =~= self@);
        sum
    }

    /// The colour of the set.
    pub fn mixed_color(&self) -> (c: Rgba)
        requires
            displayable(self@),
        ensures
            c == mixed(self@),
            c.in_gamut(),
    {
        let count = self.emotions.len();
        let weight = self.wide_total();
        if count == 0 || weight == 0 {
            return Rgba::new(1_000_000, 1_000_000, 1_000_000, 1_000_000);
        }
        let red = self.wide_weighted(0) / weight;
        let green = self.wide_weighted(1) / weight;
        let blue = self.wide_weighted(2) / weight;
        let mean = weight / (count as u128);
        proof {
            lemma_average_in_gamut(self@, 0);
            lemma_average_in_gamut(self@, 1);
            lemma_average_in_gamut(self@, 2);
        }
        let alpha: u64 = if mean < NOTABLE as u128 {
            NOTABLE
        } else if mean > UNIT as u128 {
            UNIT
        } else {
            mean as u64
        };
        Rgba::new(red as u64, green as u64, blue as u64, alpha)
    }

    /// Applies the rules by which the emotions of the set act on one another.
    pub fn apply_emotional_interactions(&mut self)
        requires
            old(self).wf(),
        ensures
            final(self).wf(),
            final(self)@ == interacted(old(self)@),
            final(self).total_capacity == old(self).total_capacity,
    {
        let ghost before = self@;
        let ghost mood = Mood::of(before);
        let joy = self.get_intensity(&EmotionType::Joy);
        let sadness = self.get_intensity(&EmotionType::Sadness);
        let anger = self.get_intensity(&EmotionType::Anger);
        let love = self.get_intensity(&EmotionType::Love);
        let neutralization: u64 = if joy > JOY_LEVEL && sadness > SADNESS_LEVEL {
            let weaker = if joy <= sadness {
                joy
            } else {
                sadness
            };
            let share = fraction(weaker, 3, 10);
            if share > NEUTRALIZATION_CAP {
                NEUTRALIZATION_CAP
            } else {
                share
            }
        } else {
            0
        };
        let enraged = anger >= ANGER_LEVEL;
        let healing = love >= LOVE_LEVEL;
        let joy_loss: u64 = neutralization + if enraged {
            fraction(anger, 1, 5)
        } else {
            0
        };
        let sadness_loss: u64 = neutralization + if healing {
            fraction(love, 1, 10)
        } else {
            0
        };
        let love_loss: u64 = if enraged {
            fraction(anger, 3, 20)
        } else {
            0
        };
        let anger_loss: u64 = if healing {
            fraction(love, 3, 20)
        } else {
            0
        };
        let overloaded = (joy as u128) + (sadness as u128) + (anger as u128) + (love as u128)
            > OVERLOAD_LEVEL as u128;
        let anxious = self.find(&EmotionType::Anxiety).is_some();
        let mut i: usize = 0;
        while i < self.emotions.len()
            invariant
                i <= self.emotions@.len(),
                self.emotions@.len() == before.len(),
                self.total_capacity == old(self).total_capacity,
                distinct(before),
                mood == Mood::of(before),
                joy_loss == mood.loss(Kind::Joy),
                sadness_loss == mood.loss(Kind::Sadness),
                love_loss == mood.loss(Kind::Love),
                anger_loss == mood.loss(Kind::Anger),
                overloaded == mood.overloaded(),
                forall|j: int| 0 <= j < i ==> (#[trigger] self@[j]) == mood.settle(before[j]),
                forall|j: int| i <= j < before.len() ==> (#[trigger] self@[j]) == before[j],
            decreases self.emotions@.len() - i,
        {
            let ghost mid = self@;
            assert(mid[i as int] == self.emotions@[i as int]@);
            let current = self.emotions[i].intensity;
            let next: u64 = match &self.emotions[i].emotion_type {
                EmotionType::Joy => sub_floor(current, joy_loss),
                EmotionType::Sadness => sub_floor(current, sadness_loss),
                EmotionType::Love => sub_floor(current, love_loss),
                EmotionType::Anger => sub_floor(current, anger_loss),
                EmotionType::Anxiety => if overloaded {
                    add_capped(current, ANXIETY_STEP, ANXIETY_CAP)
                } else {
                    current
                },
                _ => current,
            };
            self.emotions[i].intensity = next;
            proof {
                assert(self@[i as int] == self.emotions@[i as int]@);
                assert(self@[i as int] == mood.settle(before[i as int]));
                assert forall|j: int| 0 <= j < i implies (#[trigger] self@[j]) == mood.settle(
                    before[j],
                ) by {
                    assert(self@[j] == mid[j]);
                }
                assert forall|j: int| i < j < before.len() implies (#[trigger] self@[j])
                    == before[j] by {
                    assert(self@[j] == mid[j]);
                }
            }
            i += 1;
        }
        let ghost settled = Seq::new(before.len(), |i: int| mood.settle(before[i]));
        assert(self@ =~= settled);
        if overloaded && !anxious {
            self.emotions.push(Emotion::new(EmotionType::Anxiety, ANXIETY_STEP));
            assert(self@ =~= settled.push(EmotionData::fresh(Kind::Anxiety, ANXIETY_STEP)));
        }
        proof {
            let after = self@;
            assert forall|a: int, b: int| 0 <= a < b < after.len() implies (#[trigger] after[a]).kind
                != (#[trigger] after[b]).kind by {
                if b < before.len() {
                    assert(before[a].kind != before[b].kind);
                } else {
                    assert(after[a].kind == before[a].kind);
                }
            }
        }
    }
}

proof fn lemma_average_in_gamut(s: Seq<EmotionData>, which: int)
    requires
        displayable(s),
        total(s) > 0,
    ensures
        0 <= weighted(s, which) as int / total(s) as int <= UNIT,
{
    lemma_weighted_bound(s, which);
    let w = weighted(s, which) as int;
    let t = total(s) as int;
    assert(w / t <= UNIT) by (nonlinear_arith)
        requires
            0 <= w <= UNIT * t,
            t > 0,
    ;
    assert(0 <= w / t) by (nonlinear_arith)
        requires
            0 <= w,
            t > 0,
    ;
}

proof fn lemma_weighted_bound(s: Seq<EmotionData>, which: int)
    requires
        displayable(s),
    ensures
        weighted(s, which) <= UNIT * total(s),
    decreases s.len(),
{
    if s.len() > 0 {
        assert forall|i: int| 0 <= i < s.drop_last().len() implies (#[trigger] s.drop_last()[i]).bounded()
            && s.drop_last()[i].color.in_gamut() by {
            assert(s.drop_last()[i] == s[i]);
        }
        lemma_weighted_bound(s.drop_last(), which);
        let e = s.last();
        assert(e == s[s.len() - 1]);
        assert(e.bounded() && e.color.in_gamut());
        let c = channel(e.color, which) as int;
        let i = e.intensity as int;
        assert(c * i <= UNIT * i) by (nonlinear_arith)
            requires
                0 <= c <= UNIT,
                0 <= i,
        ;
        assert(UNIT * (total(s.drop_last()) + i) == UNIT * total(s.drop_last()) + UNIT * i)
            by (nonlinear_arith);
    }
}

impl Default for EmotionSet {
    fn default() -> (set: EmotionSet)
        ensures
            set@ == Seq::<EmotionData>::empty(),
            set.total_capacity == UNIT,
            set.wf(),
    {
        EmotionSet::new()
    }
}

impl Clone for EmotionSet {
    fn clone(&self) -> (copy: Self)
        ensures
            copy@ == self@,
            copy.total_capacity == self.total_capacity,
    {
        let mut emotions: Vec<Emotion> = Vec::new();
        let mut i: usize = 0;
        while i < self.emotions.len()
            invariant
                i <= self.emotions@.len(),
                emotions@.len() == i,
                forall|j: int| 0 <= j < i ==> (#[trigger] emotions@[j])@ == self.emotions@[j]@,
            decreases self.emotions@.len() - i,
        {
            emotions.push(self.emotions[i].clone());
            i += 1;
        }
        let copy = EmotionSet { emotions, total_capacity: self.total_capacity };
        assert(copy@ =~= self@);
        copy
    }
}

} // verus!
