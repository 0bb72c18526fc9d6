//! Decisions of the sample generation loop: how many frames the next batch
//! holds, and which operators of a voice have to be computed at all.

use vstd::prelude::*;
use crate::common::WaveType;

verus! {

/// How many frames of a buffer are still to be rendered, as far as the
/// choice of a batch width depends on it.
#[derive(Debug, Copy, Clone, PartialEq, Eq, Structural)]
pub enum RemainingSamples {
    FourOrMore,
    TwoOrMore,
    One,
    Zero,
}

impl RemainingSamples {
    pub fn new(remaining_samples: usize) -> (remaining: Self)
        ensures
            remaining == Self::classify(remaining_samples as int),
    {
        if remaining_samples >= 4 {
            Self::FourOrMore
        } else if remaining_samples >= 2 {
            Self::TwoOrMore
        } else if remaining_samples == 1 {
            Self::One
        } else {
            Self::Zero
        }
    }

    /// The class of a number of frames.
    pub open spec fn classify(remaining_samples: int) -> Self {
        if remaining_samples >= 4 {
            Self::FourOrMore
        } else if remaining_samples >= 2 {
            Self::TwoOrMore
        } else if remaining_samples == 1 {
            Self::One
        } else {
            Self::Zero
        }
    }
}

/// Width in frames of the batch to render next: four where four frames
/// remain and the wide kernel is available, else two where two remain and
/// the paired kernel is available, else one; zero when nothing remains.
pub open spec fn batch_width(remaining: RemainingSamples, wide: bool, paired: bool) -> int {
    match remaining {
        RemainingSamples::FourOrMore => if wide {
            4
        } else if paired {
            2
        } else {
            1
        },
        RemainingSamples::TwoOrMore => if paired {
            2
        } else {
            1
        },
        RemainingSamples::One => 1,
        RemainingSamples::Zero => 0,
    }
}

/// The widths of the batches that render `remaining_samples` frames.
pub open spec fn batch_plan(remaining_samples: int, wide: bool, paired: bool) -> Seq<usize>
    decreases remaining_samples,
{
    if remaining_samples <= 0 {
        Seq::empty()
    } else {
        let width = batch_width(RemainingSamples::classify(remaining_samples), wide, paired);
        seq![width as usize] + batch_plan(remaining_samples - width, wide, paired)
    }
}

/// Sum of the widths.
pub open spec fn total_width(widths: Seq<usize>) -> int
    decreases widths.len(),
{
    if widths.len() == 0 {
        0
    } else {
        widths[0] + total_width(widths.subrange(1, widths.len() as int))
    }
}

/// Width of the next batch; zero when nothing remains.
pub fn select_batch_width(remaining: RemainingSamples, wide: bool, paired: bool) -> (width: usize)
    ensures
        width == batch_width(remaining, wide, paired),
{
    match remaining {
        RemainingSamples::FourOrMore => if wide {
            4
        } else if paired {
            2
        } else {
            1
        },
        RemainingSamples::TwoOrMore => if paired {
            2
        } else {
            1
        },
        RemainingSamples::One => 1,
        RemainingSamples::Zero => 0,
    }
}

/// The widths of the batches in which a buffer of `num_samples` frames is
/// rendered, first batch first.
pub fn plan_batches(num_samples: usize, wide: bool, paired: bool) -> (widths: Vec<usize>)
    ensures
        widths@ == batch_plan(num_samples as int, wide, paired),
{
    let mut widths: Vec<usize> = Vec::new();
    let mut position: usize = 0;
    while position < num_samples
        invariant
            position <= num_samples,
            widths@ + batch_plan(num_samples - position, wide, paired) == batch_plan(
                num_samples as int,
                wide,
                paired,
            ),
        decreases num_samples - position,
    {
        let width = select_batch_width(RemainingSamples::new(num_samples - position), wide, paired);
        proof {
            let rest = batch_plan(num_samples - position - width, wide, paired);
            assert(widths@.push(width) + rest =~= widths@ + (seq![width] + rest));
        }
        widths.push(width);
        position += width;
    }
    assert(widths@ + Seq::<usize>::empty() =~= widths@);
    widths
}

/// The batches of a plan cover the buffer exactly, and each is one, two or
/// four frames wide, two only where the paired kernel is available and four
/// only where the wide one is.
pub proof fn lemma_batch_plan_covers(remaining_samples: int, wide: bool, paired: bool)
    requires
        0 <= remaining_samples <= usize::MAX,
    ensures
        total_width(batch_plan(remaining_samples, wide, paired)) == remaining_samples,
        forall|i: int|
            0 <= i < batch_plan(remaining_samples, wide, paired).len() ==> {
                let width = #[trigger] batch_plan(remaining_samples, wide, paired)[i];
                &&& (width == 1 || width == 2 || width == 4)
                &&& (width == 2 ==> paired)
                &&& (width == 4 ==> wide)
            },
    decreases remaining_samples,
{
    if remaining_samples > 0 {
        let width = batch_width(RemainingSamples::classify(remaining_samples), wide, paired);
        let rest = batch_plan(remaining_samples - width, wide, paired);
        let plan = batch_plan(remaining_samples, wide, paired);
        lemma_batch_plan_covers(remaining_samples - width, wide, paired);
        assert(plan == seq![width as usize] + rest);
        assert(plan.subrange(1, plan.len() as int) =~= rest);
        assert forall|i: int| 0 <= i < plan.len() implies {
            let w = #[trigger] plan[i];
            &&& (w == 1 || w == 2 || w == 4)
            &&& (w == 2 ==> paired)
            &&& (w == 4 ==> wide)
        } by {
            if i > 0 {
                assert(plan[i] == rest[i - 1]);
            }
        }
    }
}

/// What the analysis reads of the four operators of a voice. A volume, an
/// additive factor or a modulation index is off when it lies below the
/// threshold under which it counts as zero.
pub struct OperatorFacts {
    pub volume_off: Seq<bool>,
    pub additive_off: Seq<bool>,
    pub modulation_index_off: Seq<bool>,
    pub wave_type: Seq<WaveType>,
    pub modulation_targets: Seq<usize>,
}

impl OperatorFacts {
    /// Four operators, each with a target among the four.
    pub open spec fn well_formed(self) -> bool {
        &&& self.volume_off.len() == 4
        &&& self.additive_off.len() == 4
        &&& self.modulation_index_off.len() == 4
        &&& self.wave_type.len() == 4
        &&& self.modulation_targets.len() == 4
        &&& forall|i: int| 0 <= i < 4 ==> #[trigger] self.modulation_targets[i] < 4
    }

    /// Whether nothing audible depends on operator `i`, given which
    /// operators are known to be generated: it is not generated itself, or
    /// it adds nothing to the mix and its modulation target is not
    /// generated, is white noise, or ignores modulation.
    pub open spec fn skippable(self, generate: Seq<bool>, i: int) -> bool {
        let target = self.modulation_targets[i] as int;
        !generate[i] || (!self.volume_off[i] && self.additive_off[i] && (!generate[target]
            || self.wave_type[target] == WaveType::WhiteNoise || (!self.volume_off[target]
            && self.modulation_index_off[target])))
    }

    /// Before any pass an operator is generated unless its volume is off.
    pub open spec fn initial(self) -> Seq<bool> {
        seq![
            !self.volume_off[0],
            !self.volume_off[1],
            !self.volume_off[2],
            !self.volume_off[3],
        ]
    }

    /// One look at operator `i`.
    pub open spec fn visit(self, generate: Seq<bool>, i: int) -> Seq<bool> {
        if self.skippable(generate, i) {
            generate.update(i, false)
        } else {
            generate
        }
    }

    /// One pass over the operators that modulate another one.
    pub open spec fn pass(self, generate: Seq<bool>) -> Seq<bool> {
        self.visit(self.visit(self.visit(generate, 1), 2), 3)
    }

    /// The operators to generate: three passes from the initial state.
    pub open spec fn analysis(self) -> Seq<bool> {
        self.pass(self.pass(self.pass(self.initial())))
    }
}

/// Whether the modulation routing runs downwards only: each operator but
/// the first modulates an operator with a lower index.
pub open spec fn routes_downwards(modulation_targets: Seq<usize>) -> bool {
    &&& modulation_targets.len() == 4
    &&& forall|i: int| 1 <= i < 4 ==> #[trigger] modulation_targets[i] < i
}

/// Whether operator `i` is heard, directly or through the operators that
/// it modulates, where the routing runs downwards: its volume is on, and it
/// adds to the mix or modulates an operator that is heard itself, is no
/// white noise and takes modulation.
pub open spec fn heard(facts: OperatorFacts, i: int) -> bool
    decreases i,
{
    if i <= 0 {
        !facts.volume_off[0]
    } else {
        let target = facts.modulation_targets[i] as int;
        let target_heard = if target < i {
            heard(facts, target)
        } else {
            true
        };
        !facts.volume_off[i] && (!facts.additive_off[i] || (target_heard && facts.wave_type[target]
            != WaveType::WhiteNoise && !facts.modulation_index_off[target]))
    }
}

/// The facts that five arrays hold.
pub open spec fn facts_of(
    volume_off: [bool; 4],
    additive_off: [bool; 4],
    modulation_index_off: [bool; 4],
    wave_type: [WaveType; 4],
    modulation_targets: [usize; 4],
) -> OperatorFacts {
    OperatorFacts {
        volume_off: volume_off@,
        additive_off: additive_off@,
        modulation_index_off: modulation_index_off@,
        wave_type: wave_type@,
        modulation_targets: modulation_targets@,
    }
}

/// Decides for each operator of a voice whether its audio has to be
/// generated.
pub fn run_operator_dependency_analysis(
    operator_volume_off: [bool; 4],
    operator_additive_off: [bool; 4],
    operator_modulation_index_off: [bool; 4],
    operator_wave_type: [WaveType; 4],
    operator_modulation_targets: [usize; 4],
) -> (operator_generate_audio: [bool; 4])
    requires
        forall|i: int| 0 <= i < 4 ==> #[trigger] operator_modulation_targets@[i] < 4,
    ensures
        operator_generate_audio@ == facts_of(
            operator_volume_off,
            operator_additive_off,
            operator_modulation_index_off,
            operator_wave_type,
            operator_modulation_targets,
        ).analysis(),
        routes_downwards(operator_modulation_targets@) ==> forall|i: int|
            0 <= i < 4 ==> #[trigger] operator_generate_audio@[i] == heard(
                facts_of(
                    operator_volume_off,
                    operator_additive_off,
                    operator_modulation_index_off,
                    operator_wave_type,
                    operator_modulation_targets,
                ),
                i,
            ),
{
    proof {
        if routes_downwards(operator_modulation_targets@) {
            lemma_analysis_finds_the_heard(
                facts_of(
                    operator_volume_off,
                    operator_additive_off,
                    operator_modulation_index_off,
                    operator_wave_type,
                    operator_modulation_targets,
                ),
            );
        }
    }
    let ghost facts = facts_of(
        operator_volume_off,
        operator_additive_off,
        operator_modulation_index_off,
        operator_wave_type,
        operator_modulation_targets,
    );
    let mut operator_generate_audio = [true;4];
    let mut operator_additive_zero = [false;4];
    let mut operator_modulation_index_zero = [false;4];

    let mut operator_index: usize = 0;
    while operator_index < 4
        invariant
            operator_index <= 4,
            forall|i: int|
                0 <= i < operator_index ==> operator_generate_audio@[i] == !operator_volume_off@[i],
            forall|i: int|
                0 <= i < operator_index ==> operator_additive_zero@[i] == (!operator_volume_off@[i]
                    && operator_additive_off@[i]),
            forall|i: int|
                0 <= i < operator_index ==> operator_modulation_index_zero@[i] == (
                !operator_volume_off@[i] && operator_modulation_index_off@[i]),
            forall|i: int|
                operator_index <= i < 4 ==> operator_generate_audio@[i]
                    && !operator_additive_zero@[i] && !operator_modulation_index_zero@[i],
        decreases 4 - operator_index,
    {
        if operator_volume_off[operator_index] {
            operator_generate_audio[operator_index] = false;
        } else {
            operator_additive_zero[operator_index] = operator_additive_off[operator_index];
            operator_modulation_index_zero[operator_index] =
                operator_modulation_index_off[operator_index];
        }
        operator_index += 1;
    }
    assert(operator_generate_audio@ =~= facts.initial());

    let ghost mut passed = facts.initial();
    let mut round: usize = 0;
    while round < 3
        invariant
            round <= 3,
            facts == facts_of(
                operator_volume_off,
                operator_additive_off,
                operator_modulation_index_off,
                operator_wave_type,
                operator_modulation_targets,
            ),
            forall|i: int| 0 <= i < 4 ==> #[trigger] operator_modulation_targets@[i] < 4,
            forall|i: int|
                0 <= i < 4 ==> operator_additive_zero@[i] == (!operator_volume_off@[i]
                    && operator_additive_off@[i]),
            forall|i: int|
                0 <= i < 4 ==> operator_modulation_index_zero@[i] == (!operator_volume_off@[i]
                    && operator_modulation_index_off@[i]),
            operator_generate_audio@ == passed,
            round == 0 ==> passed == facts.initial(),
            round == 1 ==> passed == facts.pass(facts.initial()),
            round == 2 ==> passed == facts.pass(facts.pass(facts.initial())),
            round == 3 ==> passed == facts.analysis(),
        decreases 3 - round,
    {
        let ghost start = passed;
        let mut operator_index: usize = 1;
        while operator_index < 4
            invariant
                1 <= operator_index <= 4,
                facts == facts_of(
                    operator_volume_off,
                    operator_additive_off,
                    operator_modulation_index_off,
                    operator_wave_type,
                    operator_modulation_targets,
                ),
                forall|i: int| 0 <= i < 4 ==> #[trigger] operator_modulation_targets@[i] < 4,
                forall|i: int|
                    0 <= i < 4 ==> operator_additive_zero@[i] == (!operator_volume_off@[i]
                        && operator_additive_off@[i]),
                forall|i: int|
                    0 <= i < 4 ==> operator_modulation_index_zero@[i] == (!operator_volume_off@[i]
                        && operator_modulation_index_off@[i]),
                operator_generate_audio@ == passed,
                operator_index == 1 ==> passed == start,
                operator_index == 2 ==> passed == facts.visit(start, 1),
                operator_index == 3 ==> passed == facts.visit(facts.visit(start, 1), 2),
                operator_index == 4 ==> passed == facts.pass(start),
            decreases 4 - operator_index,
        {
            let modulation_target = operator_modulation_targets[operator_index];
            let target_is_noise = match operator_wave_type[modulation_target] {
                WaveType::WhiteNoise => true,
                WaveType::Sine => false,
            };
            let skip_condition = !operator_generate_audio[operator_index] || (
            operator_additive_zero[operator_index] && (!operator_generate_audio[modulation_target]
                || target_is_noise || operator_modulation_index_zero[modulation_target]));
            assert(skip_condition == facts.skippable(passed, operator_index as int));
            if skip_condition {
                operator_generate_audio[operator_index] = false;
            }
            proof {
                passed = facts.visit(passed, operator_index as int);
                assert(operator_generate_audio@ =~= passed);
            }
            operator_index += 1;
        }
        round += 1;
    }
    operator_generate_audio
}

/// The rule by which an operator is left out, stated over the outcome
/// itself: its volume is off, or it adds nothing to the mix and its
/// modulation target is left out, is white noise, or ignores modulation.
pub open spec fn left_out_by_rule(facts: OperatorFacts, generate: Seq<bool>, i: int) -> bool {
    let target = facts.modulation_targets[i] as int;
    facts.volume_off[i] || (facts.additive_off[i] && (!generate[target] || facts.wave_type[target]
        == WaveType::WhiteNoise || facts.modulation_index_off[target]))
}

/// Three passes reach a fixed point of the rule: the first operator is
/// generated exactly when its volume is on, and each of the others is left
/// out exactly when the rule, read over the outcome, leaves it out. A fourth
/// pass would change nothing.
pub proof fn lemma_analysis_is_fixed_point(facts: OperatorFacts)
    requires
        facts.well_formed(),
    ensures
        facts.analysis().len() == 4,
        facts.analysis()[0] == !facts.volume_off[0],
        forall|i: int|
            1 <= i < 4 ==> (!(#[trigger] facts.analysis()[i]) <==> left_out_by_rule(
                facts,
                facts.analysis(),
                i,
            )),
        facts.pass(facts.analysis()) == facts.analysis(),
{
    let first = facts.pass(facts.initial());
    let second = facts.pass(first);
    let third = facts.pass(second);
    lemma_pass_shrinks(facts, facts.initial());
    lemma_pass_shrinks(facts, first);
    lemma_pass_shrinks(facts, second);
    lemma_pass_shrinks(facts, third);
    assert(facts.modulation_targets[1] < 4);
    assert(facts.modulation_targets[2] < 4);
    assert(facts.modulation_targets[3] < 4);
    assert(facts.pass(third) =~= third);
}

/// A pass keeps the length, never turns an operator on again, leaves the
/// first operator alone, and leaves out only operators whose volume is on
/// if that held before.
proof fn lemma_pass_shrinks(facts: OperatorFacts, generate: Seq<bool>)
    requires
        facts.well_formed(),
        generate.len() == 4,
    ensures
        facts.pass(generate).len() == 4,
        facts.pass(generate)[0] == generate[0],
        forall|i: int| 0 <= i < 4 && facts.pass(generate)[i] ==> generate[i],
{
    assert(facts.modulation_targets[1] < 4);
    assert(facts.modulation_targets[2] < 4);
    assert(facts.modulation_targets[3] < 4);
}

/// A voice whose operator volumes are all off generates no operator.
pub proof fn lemma_silent_operators_are_left_out(facts: OperatorFacts)
    requires
        facts.well_formed(),
        forall|i: int| 0 <= i < 4 ==> facts.volume_off[i],
    ensures
        forall|i: int| 0 <= i < 4 ==> !facts.analysis()[i],
{
    lemma_generated_operators_sound(facts);
}

/// Only operators whose volume is on are generated.
pub proof fn lemma_generated_operators_sound(facts: OperatorFacts)
    requires
        facts.well_formed(),
    ensures
        facts.analysis().len() == 4,
        forall|i: int| 0 <= i < 4 && facts.analysis()[i] ==> !facts.volume_off[i],
{
    let first = facts.pass(facts.initial());
    let second = facts.pass(first);
    lemma_pass_shrinks(facts, facts.initial());
    lemma_pass_shrinks(facts, first);
    lemma_pass_shrinks(facts, second);
}

/// Bit pattern of the sample five, the upper limit of the output.
pub const LIMIT_BITS: u64 = 0x4014_0000_0000_0000;

/// The bit that tells a sample below zero from the same sample above.
pub const SIGN_BIT: u64 = 0x8000_0000_0000_0000;

/// Bit pattern of infinity: a greater magnitude stands for no number.
pub const INFINITY_BITS: u64 = 0x7FF0_0000_0000_0000;

/// The bit pattern of a sample without its sign.
pub open spec fn magnitude(bits: u64) -> u64 {
    (bits % SIGN_BIT) as u64
}

/// The bit pattern of a sample brought into the range from minus five to
/// five. The order of the samples of one sign is the order of the bit
/// patterns of their magnitudes. A sample beyond a limit becomes that
/// limit, and what is no number becomes five.
pub open spec fn hard_limited(bits: u64) -> u64 {
    if magnitude(bits) > INFINITY_BITS {
        LIMIT_BITS
    } else if magnitude(bits) <= LIMIT_BITS {
        bits
    } else if bits >= SIGN_BIT {
        (LIMIT_BITS + SIGN_BIT) as u64
    } else {
        LIMIT_BITS
    }
}

/// Brings the bit pattern of a summed sample into the range from minus
/// five to five.
pub fn hard_limit_bits(bits: u64) -> (limited: u64)
    ensures
        limited == hard_limited(bits),
{
    let magnitude = bits % SIGN_BIT;
    if magnitude > INFINITY_BITS {
        LIMIT_BITS
    } else if magnitude <= LIMIT_BITS {
        bits
    } else if bits >= SIGN_BIT {
        LIMIT_BITS + SIGN_BIT
    } else {
        LIMIT_BITS
    }
}

/// Every limited sample is a number whose magnitude is at most five; a
/// sample in the range passes unchanged, silence among them, and limiting
/// twice is limiting once.
pub proof fn lemma_hard_limit_bounds(bits: u64)
    ensures
        magnitude(hard_limited(bits)) <= LIMIT_BITS,
        magnitude(bits) <= LIMIT_BITS ==> hard_limited(bits) == bits,
        hard_limited(0) == 0,
        hard_limited(hard_limited(bits)) == hard_limited(bits),
{
}

/// The operators with an index of at least `from` that are to be generated,
/// highest index first.
pub open spec fn generation_order_from(generate: Seq<bool>, from: int) -> Seq<usize>
    decreases 4 - from,
{
    if from >= 4 {
        Seq::empty()
    } else if generate[from] {
        generation_order_from(generate, from + 1).push(from as usize)
    } else {
        generation_order_from(generate, from + 1)
    }
}

/// The operators to generate, in the order in which their samples are
/// computed: from the fourth operator down to the first, so that what
/// modulates an operator is computed before the operator itself.
pub fn operators_to_generate(operator_generate_audio: [bool; 4]) -> (order: Vec<usize>)
    ensures
        order@ == generation_order_from(operator_generate_audio@, 0),
{
    let mut order: Vec<usize> = Vec::new();
    let mut left: usize = 4;
    while left > 0
        invariant
            left <= 4,
            order@ == generation_order_from(operator_generate_audio@, left as int),
        decreases left,
    {
        left -= 1;
        if operator_generate_audio[left] {
            order.push(left);
        }
    }
    order
}

/// The order of generation holds exactly the operators that are to be
/// generated, each once, with falling indices.
pub proof fn lemma_generation_order(generate: Seq<bool>, from: int)
    requires
        generate.len() == 4,
        0 <= from <= 4,
    ensures
        forall|p: int|
            0 <= p < generation_order_from(generate, from).len() ==> {
                let operator = #[trigger] generation_order_from(generate, from)[p];
                from <= operator < 4 && generate[operator as int]
            },
        forall|p: int, q: int|
            0 <= p < q < generation_order_from(generate, from).len() ==> generation_order_from(
                generate,
                from,
            )[p] > generation_order_from(generate, from)[q],
        forall|i: int|
            from <= i < 4 && generate[i] ==> generation_order_from(generate, from).contains(
                i as usize,
            ),
    decreases 4 - from,
{
    if from < 4 {
        lemma_generation_order(generate, from + 1);
        let rest = generation_order_from(generate, from + 1);
        let order = generation_order_from(generate, from);
        assert forall|i: int| from <= i < 4 && generate[i] implies order.contains(i as usize) by {
            if i > from {
                assert(rest.contains(i as usize));
                let p = choose|p: int| 0 <= p < rest.len() && rest[p] == i as usize;
                assert(order[p] == i as usize);
            } else {
                assert(order[rest.len() as int] == from as usize);
            }
        }
    }
}

/// Where the routing runs downwards, an operator is computed only after
/// every generated operator that modulates it.
pub proof fn lemma_modulators_come_first(
    generate: Seq<bool>,
    modulation_targets: Seq<usize>,
    p: int,
    q: int,
)
    requires
        generate.len() == 4,
        routes_downwards(modulation_targets),
        0 <= p < generation_order_from(generate, 0).len(),
        0 <= q < generation_order_from(generate, 0).len(),
        generation_order_from(generate, 0)[p] >= 1,
        generation_order_from(generate, 0)[q] == modulation_targets[generation_order_from(
            generate,
            0,
        )[p] as int],
    ensures
        p < q,
{
    lemma_generation_order(generate, 0);
    let order = generation_order_from(generate, 0);
    let modulator = order[p];
    assert(modulation_targets[modulator as int] < modulator);
    if q < p {
        assert(order[q] > order[p]);
    }
}

/// Where the routing runs downwards, the analysis generates exactly the
/// operators that are heard.
pub proof fn lemma_analysis_finds_the_heard(facts: OperatorFacts)
    requires
        facts.well_formed(),
        routes_downwards(facts.modulation_targets),
    ensures
        forall|i: int| 0 <= i < 4 ==> #[trigger] facts.analysis()[i] == heard(facts, i),
{
    lemma_analysis_is_fixed_point(facts);
    let found = facts.analysis();
    assert(facts.modulation_targets[1] < 1);
    assert(facts.modulation_targets[2] < 2);
    assert(facts.modulation_targets[3] < 3);
    assert(found[0] == heard(facts, 0));
    assert(!found[1] <==> left_out_by_rule(facts, found, 1));
    assert(found[1] == heard(facts, 1));
    assert(!found[2] <==> left_out_by_rule(facts, found, 2));
    assert(found[2] == heard(facts, 2));
    assert(!found[3] <==> left_out_by_rule(facts, found, 3));
    assert(found[3] == heard(facts, 3));
}

} // verus!
