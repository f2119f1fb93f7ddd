use vstd::prelude::*;
use vstd::string::StringExecFns;
use crate::card_ids::{card_id_label, card_name};
use crate::text::{append_bool, append_decimal, bool_text, decimal};
use crate::tool_ids::{tool_label, ToolId};
use crate::util::copy_vec;
use crate::types::{energy_label, trainer_type_label, Card, EnergyType, TrainerCard};

verus! {

/// A command together with the player who issues it. `is_stack` marks a
/// sub-step of a resolution that is already under way, as opposed to a fresh
/// decision of the turn.
#[derive(Debug, PartialEq)]
pub struct Action {
    pub actor: usize,
    pub action: SimpleAction,
    pub is_stack: bool,
}

/// The closed set of commands. A slot index is 0 for the active creature and
/// 1 to 3 for the bench.
#[derive(Debug, PartialEq, Eq, Hash)]
#[allow(inconsistent_fields)]
pub enum SimpleAction {
    DrawCard { amount: u8 },
    Play { trainer_card: TrainerCard },
    /// Puts a card from the hand into the slot.
    Place(Card, usize),
    /// Evolves the creature in the slot into the card from the hand.
    Evolve(Card, usize),
    /// Uses the ability of the creature in the slot.
    UseAbility(usize),
    /// The active creature attacks the opposing active creature with its
    /// attack of this index.
    Attack(usize),
    /// The active creature retreats, and the creature in the slot takes its
    /// place.
    Retreat(usize),
    EndTurn,
    /// Attaches energies: each entry is an amount, a kind and a slot.
    /// `is_turn_energy` says that this is the one energy of the turn.
    Attach { attachments: Vec<(u32, EnergyType, usize)>, is_turn_energy: bool },
    AttachTool { in_play_idx: usize, tool_id: ToolId },
    Heal { in_play_idx: usize, amount: u32 },
    /// Damages creatures of the opponent: each entry is a damage and a slot.
    ApplyDamage { targets: Vec<(u32, usize)> },
    /// Switches the creature in the slot with the active creature.
    Activate { in_play_idx: usize },
    /// Makes the opponent switch the creature in the slot of their bench with
    /// their active creature.
    ForceSwitchOpponent { in_play_idx: usize },
    /// Nothing: the answer "no" to a question.
    Noop,
}

/// The value of a [`SimpleAction`].
#[allow(inconsistent_fields)]
pub enum SimpleActionView {
    DrawCard { amount: u8 },
    Play { trainer_card: TrainerCard },
    Place(Card, usize),
    Evolve(Card, usize),
    UseAbility(usize),
    Attack(usize),
    Retreat(usize),
    EndTurn,
    Attach { attachments: Seq<(u32, EnergyType, usize)>, is_turn_energy: bool },
    AttachTool { in_play_idx: usize, tool_id: ToolId },
    Heal { in_play_idx: usize, amount: u32 },
    ApplyDamage { targets: Seq<(u32, usize)> },
    Activate { in_play_idx: usize },
    ForceSwitchOpponent { in_play_idx: usize },
    Noop,
}

/// The value of an [`Action`].
pub struct ActionView {
    pub actor: usize,
    pub action: SimpleActionView,
    pub is_stack: bool,
}

impl View for SimpleAction {
    type V = SimpleActionView;

    open spec fn view(&self) -> SimpleActionView {
        match *self {
            SimpleAction::DrawCard { amount } => SimpleActionView::DrawCard { amount },
            SimpleAction::Play { trainer_card } => SimpleActionView::Play { trainer_card },
            SimpleAction::Place(card, index) => SimpleActionView::Place(card, index),
            SimpleAction::Evolve(card, index) => SimpleActionView::Evolve(card, index),
            SimpleAction::UseAbility(index) => SimpleActionView::UseAbility(index),
            SimpleAction::Attack(index) => SimpleActionView::Attack(index),
            SimpleAction::Retreat(index) => SimpleActionView::Retreat(index),
            SimpleAction::EndTurn => SimpleActionView::EndTurn,
            SimpleAction::Attach { attachments, is_turn_energy } => SimpleActionView::Attach {
                attachments: attachments@,
                is_turn_energy,
            },
            SimpleAction::AttachTool { in_play_idx, tool_id } => SimpleActionView::AttachTool {
                in_play_idx,
                tool_id,
            },
            SimpleAction::Heal { in_play_idx, amount } => SimpleActionView::Heal {
                in_play_idx,
                amount,
            },
            SimpleAction::ApplyDamage { targets } => SimpleActionView::ApplyDamage {
                targets: targets@,
            },
            SimpleAction::Activate { in_play_idx } => SimpleActionView::Activate { in_play_idx },
            SimpleAction::ForceSwitchOpponent { in_play_idx } => {
                SimpleActionView::ForceSwitchOpponent { in_play_idx }
            },
            SimpleAction::Noop => SimpleActionView::Noop,
        }
    }
}

impl View for Action {
    type V = ActionView;

    open spec fn view(&self) -> ActionView {
        ActionView { actor: self.actor, action: self.action@, is_stack: self.is_stack }
    }
}

impl Clone for SimpleAction {
    fn clone(&self) -> (r: SimpleAction)
        ensures
            r@ == self@,
    {
        match self {
            SimpleAction::DrawCard { amount } => SimpleAction::DrawCard { amount: *amount },
            SimpleAction::Play { trainer_card } => SimpleAction::Play {
                trainer_card: *trainer_card,
            },
            SimpleAction::Place(card, index) => SimpleAction::Place(*card, *index),
            SimpleAction::Evolve(card, index) => SimpleAction::Evolve(*card, *index),
            SimpleAction::UseAbility(index) => SimpleAction::UseAbility(*index),
            SimpleAction::Attack(index) => SimpleAction::Attack(*index),
            SimpleAction::Retreat(index) => SimpleAction::Retreat(*index),
            SimpleAction::EndTurn => SimpleAction::EndTurn,
            SimpleAction::Attach { attachments, is_turn_energy } => SimpleAction::Attach {
                attachments: copy_vec(attachments),
                is_turn_energy: *is_turn_energy,
            },
            SimpleAction::AttachTool { in_play_idx, tool_id } => SimpleAction::AttachTool {
                in_play_idx: *in_play_idx,
                tool_id: *tool_id,
            },
            SimpleAction::Heal { in_play_idx, amount } => SimpleAction::Heal {
                in_play_idx: *in_play_idx,
                amount: *amount,
            },
            SimpleAction::ApplyDamage { targets } => SimpleAction::ApplyDamage {
                targets: copy_vec(targets),
            },
            SimpleAction::Activate { in_play_idx } => SimpleAction::Activate {
                in_play_idx: *in_play_idx,
            },
            SimpleAction::ForceSwitchOpponent { in_play_idx } => SimpleAction::ForceSwitchOpponent {
                in_play_idx: *in_play_idx,
            },
            SimpleAction::Noop => SimpleAction::Noop,
        }
    }
}

impl Clone for Action {
    fn clone(&self) -> (r: Action)
        ensures
            r@ == self@,
    {
        Action { actor: self.actor, action: self.action.clone(), is_stack: self.is_stack }
    }
}

/// A trainer card written as the fields of its record.
pub open spec fn trainer_text(t: TrainerCard) -> Seq<char> {
    "TrainerCard { id: "@ + card_id_label(t.id) + ", trainer_card_type: "@ + trainer_type_label(
        t.trainer_card_type,
    ) + " }"@
}

/// One attachment written as `(amount, kind, slot)`.
pub open spec fn attachment_text(a: (u32, EnergyType, usize)) -> Seq<char> {
    "("@ + decimal(a.0 as nat) + ", "@ + energy_label(a.1) + ", "@ + decimal(a.2 as nat) + ")"@
}

/// One target written as `(damage, slot)`.
pub open spec fn target_text(t: (u32, usize)) -> Seq<char> {
    "("@ + decimal(t.0 as nat) + ", "@ + decimal(t.1 as nat) + ")"@
}

/// The attachments, each written by `attachment_text`, with `, ` between
/// them.
pub open spec fn attachments_text(s: Seq<(u32, EnergyType, usize)>) -> Seq<char>
    decreases s.len(),
{
    if s.len() == 0 {
        Seq::empty()
    } else if s.len() == 1 {
        attachment_text(s[0])
    } else {
        attachments_text(s.drop_last()) + ", "@ + attachment_text(s.last())
    }
}

/// The targets, each written by `target_text`, with `, ` between them.
pub open spec fn targets_text(s: Seq<(u32, usize)>) -> Seq<char>
    decreases s.len(),
{
    if s.len() == 0 {
        Seq::empty()
    } else if s.len() == 1 {
        target_text(s[0])
    } else {
        targets_text(s.drop_last()) + ", "@ + target_text(s.last())
    }
}

/// A name, an opening bracket, a number and a closing bracket.
pub open spec fn call_text(name: Seq<char>, n: nat) -> Seq<char> {
    name + "("@ + decimal(n) + ")"@
}

impl SimpleActionView {
    /// The command as a line of text: the command's name and its operands in
    /// brackets.
    pub open spec fn text(self) -> Seq<char> {
        match self {
            SimpleActionView::DrawCard { amount } => call_text("DrawCard"@, amount as nat),
            SimpleActionView::Play { trainer_card } => "Play("@ + trainer_text(trainer_card) + ")"@,
            SimpleActionView::Place(card, index) => "Place("@ + card_name(card.id()) + ", "@
                + decimal(index as nat) + ")"@,
            SimpleActionView::Evolve(card, index) => "Evolve("@ + card_name(card.id()) + ", "@
                + decimal(index as nat) + ")"@,
            SimpleActionView::UseAbility(index) => call_text("UseAbility"@, index as nat),
            SimpleActionView::Attack(index) => call_text("Attack"@, index as nat),
            SimpleActionView::Retreat(index) => call_text("Retreat"@, index as nat),
            SimpleActionView::EndTurn => "EndTurn"@,
            SimpleActionView::Attach { attachments, is_turn_energy } => "Attach(\""@
                + attachments_text(attachments) + "\", "@ + bool_text(is_turn_energy) + ")"@,
            SimpleActionView::AttachTool { in_play_idx, tool_id } => "AttachTool("@ + decimal(
                in_play_idx as nat,
            ) + ", "@ + tool_label(tool_id) + ")"@,
            SimpleActionView::Heal { in_play_idx, amount } => "Heal("@ + decimal(in_play_idx as nat)
                + ", "@ + decimal(amount as nat) + ")"@,
            SimpleActionView::ApplyDamage { targets } => "ApplyDamage("@ + targets_text(targets)
                + ")"@,
            SimpleActionView::Activate { in_play_idx } => call_text(
                "Activate"@,
                in_play_idx as nat,
            ),
            SimpleActionView::ForceSwitchOpponent { in_play_idx } => call_text(
                "ForceSwitchOpponent"@,
                in_play_idx as nat,
            ),
            SimpleActionView::Noop => "Noop"@,
        }
    }
}

fn append_call(out: &mut String, name: &str, n: usize)
    ensures
        final(out)@ == old(out)@ + call_text(name@, n as nat),
{
    out.append(name);
    out.append("(");
    append_decimal(out, n as u64);
    out.append(")");
    assert(final(out)@ =~= old(out)@ + call_text(name@, n as nat));
}

fn append_card_and_slot(out: &mut String, name: &str, card: &Card, index: usize)
    ensures
        final(out)@ == old(out)@ + (name@ + card_name(card.id()) + ", "@ + decimal(index as nat)
            + ")"@),
{
    out.append(name);
    out.append(card.get_id().name());
    out.append(", ");
    append_decimal(out, index as u64);
    out.append(")");
    assert(final(out)@ =~= old(out)@ + (name@ + card_name(card.id()) + ", "@ + decimal(
        index as nat,
    ) + ")"@));
}

fn append_trainer(out: &mut String, t: &TrainerCard)
    ensures
        final(out)@ == old(out)@ + trainer_text(*t),
{
    out.append("TrainerCard { id: ");
    out.append(t.id.label());
    out.append(", trainer_card_type: ");
    out.append(t.trainer_card_type.label());
    out.append(" }");
    assert(final(out)@ =~= old(out)@ + trainer_text(*t));
}

fn append_attachment(out: &mut String, a: &(u32, EnergyType, usize))
    ensures
        final(out)@ == old(out)@ + attachment_text(*a),
{
    out.append("(");
    append_decimal(out, a.0 as u64);
    out.append(", ");
    out.append(a.1.label());
    out.append(", ");
    append_decimal(out, a.2 as u64);
    out.append(")");
    assert(final(out)@ =~= old(out)@ + attachment_text(*a));
}

fn append_target(out: &mut String, t: &(u32, usize))
    ensures
        final(out)@ == old(out)@ + target_text(*t),
{
    out.append("(");
    append_decimal(out, t.0 as u64);
    out.append(", ");
    append_decimal(out, t.1 as u64);
    out.append(")");
    assert(final(out)@ =~= old(out)@ + target_text(*t));
}

fn append_attachments(out: &mut String, attachments: &Vec<(u32, EnergyType, usize)>)
    ensures
        final(out)@ == old(out)@ + attachments_text(attachments@),
{
    let ghost start = out@;
    let mut i: usize = 0;
    while i < attachments.len()
        invariant
            i <= attachments.len(),
            out@ == start + attachments_text(attachments@.take(i as int)),
        decreases attachments.len() - i,
    {
        let ghost before = out@;
        if i > 0 {
            out.append(", ");
        }
        append_attachment(out, &attachments[i]);
        proof {
            let next = attachments@.take(i + 1);
            assert(next.drop_last() =~= attachments@.take(i as int));
            assert(next.last() == attachments@[i as int]);
            if i == 0 {
                assert(next[0] == attachments@[0]);
                assert(out@ =~= start + attachments_text(next));
            } else {
                assert(out@ =~= start + attachments_text(next));
            }
        }
        i += 1;
    }
    assert(attachments@.take(i as int) =~= attachments@);
}

fn append_targets(out: &mut String, targets: &Vec<(u32, usize)>)
    ensures
        final(out)@ == old(out)@ + targets_text(targets@),
{
    let ghost start = out@;
    let mut i: usize = 0;
    while i < targets.len()
        invariant
            i <= targets.len(),
            out@ == start + targets_text(targets@.take(i as int)),
        decreases targets.len() - i,
    {
        if i > 0 {
            out.append(", ");
        }
        append_target(out, &targets[i]);
        proof {
            let next = targets@.take(i + 1);
            assert(next.drop_last() =~= targets@.take(i as int));
            assert(next.last() == targets@[i as int]);
            if i == 0 {
                assert(next[0] == targets@[0]);
                assert(out@ =~= start + targets_text(next));
            } else {
                assert(out@ =~= start + targets_text(next));
            }
        }
        i += 1;
    }
    assert(targets@.take(i as int) =~= targets@);
}

impl SimpleAction {
    /// The command as a line of text.
    pub fn to_string(&self) -> (r: String)
        ensures
            r@ == self@.text(),
    {
        let mut out = String::new();
        match self {
            SimpleAction::DrawCard { amount } => {
                append_call(&mut out, "DrawCard", *amount as usize);
            },
            SimpleAction::Play { trainer_card } => {
                out.append("Play(");
                append_trainer(&mut out, trainer_card);
                out.append(")");
            },
            SimpleAction::Place(card, index) => {
                append_card_and_slot(&mut out, "Place(", card, *index);
            },
            SimpleAction::Evolve(card, index) => {
                append_card_and_slot(&mut out, "Evolve(", card, *index);
            },
            SimpleAction::UseAbility(index) => {
                append_call(&mut out, "UseAbility", *index);
            },
            SimpleAction::Attack(index) => {
                append_call(&mut out, "Attack", *index);
            },
            SimpleAction::Retreat(index) => {
                append_call(&mut out, "Retreat", *index);
            },
            SimpleAction::EndTurn => {
                out.append("EndTurn");
            },
            SimpleAction::Attach { attachments, is_turn_energy } => {
                out.append("Attach(\"");
                append_attachments(&mut out, attachments);
                out.append("\", ");
                append_bool(&mut out, *is_turn_energy);
                out.append(")");
            },
            SimpleAction::AttachTool { in_play_idx, tool_id } => {
                out.append("AttachTool(");
                append_decimal(&mut out, *in_play_idx as u64);
                out.append(", ");
                out.append(tool_id.label());
                out.append(")");
            },
            SimpleAction::Heal { in_play_idx, amount } => {
                out.append("Heal(");
                append_decimal(&mut out, *in_play_idx as u64);
                out.append(", ");
                append_decimal(&mut out, *amount as u64);
                out.append(")");
            },
            SimpleAction::ApplyDamage { targets } => {
                out.append("ApplyDamage(");
                append_targets(&mut out, targets);
                out.append(")");
            },
            SimpleAction::Activate { in_play_idx } => {
                append_call(&mut out, "Activate", *in_play_idx);
            },
            SimpleAction::ForceSwitchOpponent { in_play_idx } => {
                append_call(&mut out, "ForceSwitchOpponent", *in_play_idx);
            },
            SimpleAction::Noop => {
                out.append("Noop");
            },
        }
        assert(out@ =~= self@.text());
        out
    }
}

fn same_attachments(a: &Vec<(u32, EnergyType, usize)>, b: &Vec<(u32, EnergyType, usize)>) -> (r:
    bool)
    ensures
        r == (a@ == b@),
{
    if a.len() != b.len() {
        return false;
    }
    let mut i: usize = 0;
    while i < a.len()
        invariant
            i <= a.len(),
            a.len() == b.len(),
            a@.take(i as int) == b@.take(i as int),
        decreases a.len() - i,
    {
        if a[i].0 != b[i].0 || a[i].1 != b[i].1 || a[i].2 != b[i].2 {
            assert(a@[i as int] != b@[i as int]);
            return false;
        }
        assert(a@.take(i + 1) =~= a@.take(i as int).push(a@[i as int]));
        assert(b@.take(i + 1) =~= b@.take(i as int).push(b@[i as int]));
        i += 1;
    }
    assert(a@.take(i as int) =~= a@);
    assert(b@.take(i as int) =~= b@);
    true
}

fn same_targets(a: &Vec<(u32, usize)>, b: &Vec<(u32, usize)>) -> (r: bool)
    ensures
        r == (a@ == b@),
{
    if a.len() != b.len() {
        return false;
    }
    let mut i: usize = 0;
    while i < a.len()
        invariant
            i <= a.len(),
            a.len() == b.len(),
            a@.take(i as int) == b@.take(i as int),
        decreases a.len() - i,
    {
        if a[i].0 != b[i].0 || a[i].1 != b[i].1 {
            assert(a@[i as int] != b@[i as int]);
            return false;
        }
        assert(a@.take(i + 1) =~= a@.take(i as int).push(a@[i as int]));
        assert(b@.take(i + 1) =~= b@.take(i as int).push(b@[i as int]));
        i += 1;
    }
    assert(a@.take(i as int) =~= a@);
    assert(b@.take(i as int) =~= b@);
    true
}

impl SimpleAction {
    /// Whether the two commands are the same command with the same
    /// operands.
    pub fn same_as(&self, other: &SimpleAction) -> (r: bool)
        ensures
            r == (self@ == other@),
    {
        match (self, other) {
            (SimpleAction::DrawCard { amount: a }, SimpleAction::DrawCard { amount: b }) => *a
                == *b,
            (SimpleAction::Play { trainer_card: a }, SimpleAction::Play { trainer_card: b }) => *a
                == *b,
            (SimpleAction::Place(a, i), SimpleAction::Place(b, j)) => *a == *b && *i == *j,
            (SimpleAction::Evolve(a, i), SimpleAction::Evolve(b, j)) => *a == *b && *i == *j,
            (SimpleAction::UseAbility(i), SimpleAction::UseAbility(j)) => *i == *j,
            (SimpleAction::Attack(i), SimpleAction::Attack(j)) => *i == *j,
            (SimpleAction::Retreat(i), SimpleAction::Retreat(j)) => *i == *j,
            (SimpleAction::EndTurn, SimpleAction::EndTurn) => true,
            (
                SimpleAction::Attach { attachments: a, is_turn_energy: x },
                SimpleAction::Attach { attachments: b, is_turn_energy: y },
            ) => {
                let same = same_attachments(a, b);
                same && *x == *y
            },
            (
                SimpleAction::AttachTool { in_play_idx: i, tool_id: a },
                SimpleAction::AttachTool { in_play_idx: j, tool_id: b },
            ) => *i == *j && *a == *b,
            (
                SimpleAction::Heal { in_play_idx: i, amount: a },
                SimpleAction::Heal { in_play_idx: j, amount: b },
            ) => *i == *j && *a == *b,
            (SimpleAction::ApplyDamage { targets: a }, SimpleAction::ApplyDamage { targets: b }) => {
                same_targets(a, b)
            },
            (
                SimpleAction::Activate { in_play_idx: i },
                SimpleAction::Activate { in_play_idx: j },
            ) => *i == *j,
            (
                SimpleAction::ForceSwitchOpponent { in_play_idx: i },
                SimpleAction::ForceSwitchOpponent { in_play_idx: j },
            ) => *i == *j,
            (SimpleAction::Noop, SimpleAction::Noop) => true,
            _ => false,
        }
    }
}

impl Action {
    /// Whether the two are the same command of the same actor.
    pub fn same_as(&self, other: &Action) -> (r: bool)
        ensures
            r == (self@ == other@),
    {
        let same = self.action.same_as(&other.action);
        self.actor == other.actor && self.is_stack == other.is_stack && same
    }
}

} // verus!
