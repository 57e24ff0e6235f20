//! What holds of the lowering rules, beyond what the functions state of
//! themselves.

use vstd::prelude::*;
use crate::diag::{decimal_text, digit_char};
use crate::func::{lemma_add_const_idempotent, store_words};
use crate::literal::{all_digits, digits_value, int_literal, is_digit};
use crate::model::GenView;
use crate::opcode::{CodeWord, Opcode};
use crate::rules::{emit_pops, emit_stores, gen_stores, prep_total};
use crate::value::{EntIndex, EntityKey, GenError, LeftHandSide, TypeError, Value};

verus! {

/// `n` times `POP`.
pub open spec fn pops(n: int) -> Seq<CodeWord> {
    Seq::new(n as nat, |i: int| CodeWord::Code(Opcode::POP))
}

/// A function is under construction, and it is one of the table.
pub open spec fn emitting(m: GenView) -> bool {
    m.func_stack.len() > 0 && m.cur_key() < m.objs.functions.len()
}

/// Emitting appends the words to the code of the current function, which
/// stays the current function.
pub proof fn lemma_emit(m: GenView, words: Seq<CodeWord>)
    requires
        emitting(m),
    ensures
        emitting(m.emit(words)),
        m.emit(words).cur().code == m.cur().code + words,
{
}

/// Emitting `POP` `n` times appends `n` times `POP`.
pub proof fn lemma_emit_pops(m: GenView, n: int)
    requires
        emitting(m),
        0 <= n,
    ensures
        emitting(emit_pops(m, n)),
        emit_pops(m, n).cur().code == m.cur().code + pops(n),
    decreases n,
{
    if n == 0 {
        assert(m.cur().code + pops(0) =~= m.cur().code);
    } else {
        let m1 = m.emit_code(Opcode::POP);
        lemma_emit(m, seq![CodeWord::Code(Opcode::POP)]);
        lemma_emit_pops(m1, n - 1);
        assert(m1.cur().code + pops(n - 1) =~= m.cur().code + pops(n));
    }
}

/// The stores to the targets from `i` on are one `STORE` of five words for
/// each target.
pub proof fn lemma_emit_stores(m: GenView, lhs: Seq<LeftHandSide>, i: int, cur: int)
    requires
        emitting(m),
        0 <= i <= lhs.len(),
    ensures
        emitting(emit_stores(m, lhs, i, cur)),
        m.cur().code.is_prefix_of(emit_stores(m, lhs, i, cur).cur().code),
        emit_stores(m, lhs, i, cur).cur().code.len() == m.cur().code.len() + 5 * (lhs.len() - i),
    decreases lhs.len() - i,
{
    if i < lhs.len() {
        let val = (i - lhs.len()) as i16;
        match lhs[i] {
            LeftHandSide::Primitive(_) => {
                let words = store_words(lhs[i], val, None);
                lemma_emit(m, words);
                lemma_emit_stores(m.emit(words), lhs, i + 1, cur);
            },
            LeftHandSide::IndexSelExpr(_) => {
                let words = store_words(LeftHandSide::IndexSelExpr(cur as i16), val, None);
                lemma_emit(m, words);
                lemma_emit_stores(m.emit(words), lhs, i + 1, cur + 2);
            },
            LeftHandSide::Deref(_) => {
                let words = store_words(LeftHandSide::Deref(cur as i16), val, None);
                lemma_emit(m, words);
                lemma_emit_stores(m.emit(words), lhs, i + 1, cur + 1);
            },
        }
    }
}

/// An assignment pops what it pushed. Where the stores to the targets can
/// be lowered, the code consists of one `STORE` for each target, and then
/// of as many `POP` as the targets have values and as preparing the targets
/// pushed words.
pub proof fn lemma_stores_balanced(m: GenView, lhs: Seq<LeftHandSide>, pos: usize)
    requires
        emitting(m),
        gen_stores(m, lhs, pos) is Ok,
    ensures
        ({
            let total = prep_total(lhs) + lhs.len();
            let stored = emit_stores(m, lhs, 0, -total);
            let after = gen_stores(m, lhs, pos)->Ok_0.0;
            &&& total >= 0
            &&& stored.cur().code.len() == m.cur().code.len() + 5 * lhs.len()
            &&& m.cur().code.is_prefix_of(stored.cur().code)
            &&& after.cur().code == stored.cur().code + pops(total)
        }),
{
    reveal(gen_stores);
    let total = prep_total(lhs) + lhs.len();
    crate::gen_assign::lemma_prep_total_nonneg(lhs);
    lemma_emit_stores(m, lhs, 0, -total);
    lemma_emit_pops(emit_stores(m, lhs, 0, -total), total);
}

/// Registering the same name and value twice in one function gives the
/// same slot, and the second time changes nothing.
pub proof fn lemma_const_pool_idempotent(
    m: GenView,
    pos: usize,
    entity: Option<EntityKey>,
    cst: Value,
)
    requires
        emitting(m),
        m.add_const(pos, entity, cst) is Ok,
    ensures
        ({
            let first = m.add_const(pos, entity, cst)->Ok_0;
            first.0.add_const(pos, entity, cst) == Ok::<(GenView, EntIndex), crate::model::Failure>(first)
        }),
{
    reveal(GenView::add_const);
    let f = m.cur().add_const(entity, cst)->Some_0.0;
    lemma_add_const_idempotent(m.cur(), entity, cst);
    let m1 = m.with_cur(f);
    assert(m1.cur() == f);
    assert(m1.with_cur(f) =~= m1);
}

/// The decimal digits of a number denote the number.
pub proof fn lemma_decimal_digits(n: nat)
    ensures
        decimal_text(n).len() > 0,
        all_digits(decimal_text(n)),
        digits_value(decimal_text(n)) == n,
    decreases n,
{
    let t = decimal_text(n);
    if n < 10 {
        assert(t.drop_last() =~= Seq::<char>::empty());
        assert(t.last() == digit_char(n));
        assert(digits_value(t.drop_last()) == 0);
    } else {
        lemma_decimal_digits(n / 10);
        assert(t.drop_last() =~= decimal_text(n / 10));
        assert(t.last() == digit_char(n % 10));
        assert forall|i: int| 0 <= i < t.len() implies is_digit(#[trigger] t[i]) by {
            if i < t.len() - 1 {
                assert(t[i] == decimal_text(n / 10)[i]);
            }
        }
    }
}

/// A number that is written in decimal digits is read as the same number.
pub proof fn lemma_decimal_round_trip(n: nat)
    requires
        n <= i64::MAX,
    ensures
        int_literal(decimal_text(n)) == Ok::<i64, TypeError>(n as i64),
{
    lemma_decimal_digits(n);
}

} // verus!
