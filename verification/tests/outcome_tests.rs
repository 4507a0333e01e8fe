use core::cmp::Ordering;
use tictactoe::Evaluation;

#[test]
fn neg_swaps_win_and_loss() {
    assert_eq!(Evaluation::Draw.neg(), Evaluation::Draw);
    assert_eq!(Evaluation::Win(3).neg(), Evaluation::Loss(3));
    assert_eq!(Evaluation::Loss(7).neg(), Evaluation::Win(7));
}

#[test]
fn neg_is_an_involution() {
    let samples = [
        Evaluation::Draw,
        Evaluation::Win(0),
        Evaluation::Win(9),
        Evaluation::Win(255),
        Evaluation::Loss(0),
        Evaluation::Loss(9),
        Evaluation::Loss(255),
    ];
    for v in samples {
        assert_eq!(v.neg().neg(), v);
    }
}

#[test]
fn cmp_ranks_wins_over_draws_over_losses() {
    assert_eq!(Evaluation::Win(9).cmp(&Evaluation::Draw), Ordering::Greater);
    assert_eq!(Evaluation::Win(9).cmp(&Evaluation::Loss(0)), Ordering::Greater);
    assert_eq!(Evaluation::Draw.cmp(&Evaluation::Loss(0)), Ordering::Greater);
    assert_eq!(Evaluation::Draw.cmp(&Evaluation::Win(9)), Ordering::Less);
    assert_eq!(Evaluation::Loss(9).cmp(&Evaluation::Draw), Ordering::Less);
    assert_eq!(Evaluation::Loss(9).cmp(&Evaluation::Win(0)), Ordering::Less);
}

#[test]
fn cmp_prefers_sooner_wins_and_later_losses() {
    assert_eq!(Evaluation::Win(2).cmp(&Evaluation::Win(5)), Ordering::Greater);
    assert_eq!(Evaluation::Win(5).cmp(&Evaluation::Win(2)), Ordering::Less);
    assert_eq!(Evaluation::Loss(5).cmp(&Evaluation::Loss(2)), Ordering::Greater);
    assert_eq!(Evaluation::Loss(2).cmp(&Evaluation::Loss(5)), Ordering::Less);
    assert_eq!(Evaluation::Win(4).cmp(&Evaluation::Win(4)), Ordering::Equal);
    assert_eq!(Evaluation::Loss(4).cmp(&Evaluation::Loss(4)), Ordering::Equal);
    assert_eq!(Evaluation::Draw.cmp(&Evaluation::Draw), Ordering::Equal);
}

#[test]
fn negation_reverses_the_order() {
    let samples = [
        Evaluation::Draw,
        Evaluation::Win(0),
        Evaluation::Win(3),
        Evaluation::Win(255),
        Evaluation::Loss(0),
        Evaluation::Loss(3),
        Evaluation::Loss(255),
    ];
    for a in samples {
        for b in samples {
            if a.cmp(&b) == Ordering::Greater {
                assert_eq!(a.neg().cmp(&b.neg()), Ordering::Less);
            }
            if a.cmp(&b) == Ordering::Equal {
                assert_eq!(a, b);
            }
        }
    }
}
