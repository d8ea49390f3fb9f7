use exprcalc::Real;

struct Dice(u64);

impl Dice {
    fn next(&mut self) -> u64 {
        self.0 ^= self.0 << 13;
        self.0 ^= self.0 >> 7;
        self.0 ^= self.0 << 17;
        self.0
    }

    fn below(&mut self, bound: u64) -> u64 {
        self.next() % bound
    }

    /// A number with a significand of any width and an exponent that is
    /// small or, if `far`, anywhere in the range or at one of its ends.
    fn number(&mut self, far: bool) -> Real {
        let width = self.below(127) as u32;
        let wide = ((self.next() as u128) << 64 | self.next() as u128) >> (127 - width) >> 1;
        let significand = if self.below(2) == 0 { wide as i128 } else { -(wide as i128) };
        let exponent = match self.below(if far { 4 } else { 1 }) {
            0 => self.below(400) as i64 - 200,
            1 => self.below(33554000) as i64 - 16777000,
            2 => 16777000 - self.below(300) as i64,
            _ => self.below(300) as i64 - 16777000,
        };
        match Real::from_parts(significand, exponent) {
            Some(r) => r,
            None => Real::from_int(self.next() as i64),
        }
    }
}

fn within_range(r: &Option<Real>) {
    if let Some(r) = r {
        let (significand, exponent) = (r.significand(), r.exponent());
        assert!(significand > i128::MIN);
        assert!((-16777216..=16777216).contains(&exponent));
        assert!(significand % 2 != 0 || (significand == 0 && exponent == 0));
    }
}

#[test]
fn arithmetic_on_any_numbers_stays_within_range() {
    let mut dice = Dice(0x1234_5678_9abc_def1);
    for round in 0..2000 {
        let far = round % 20 == 0;
        let (a, b) = (dice.number(far), dice.number(far));
        within_range(&a.plus(&b));
        within_range(&a.minus(&b));
        within_range(&a.times(&b));
        if !b.is_zero() {
            within_range(&a.divided_by(&b));
        }
        assert_eq!(a.plus(&b), b.plus(&a));
        assert_eq!(a.times(&b), b.times(&a));
    }
}

#[test]
fn powers_of_any_numbers_stay_within_range() {
    let mut dice = Dice(0x0fed_cba9_8765_4321);
    for round in 0..1500 {
        let far = round % 20 == 0;
        let (a, b) = (dice.number(far), dice.number(far));
        let n = match dice.below(3) {
            0 => dice.below(40) as i64 - 20,
            1 => dice.below(4000000) as i64 - 2000000,
            _ => dice.next() as i64,
        };
        within_range(&a.raised_to_int(n));
        within_range(&a.raised_to(&b));
        let small = Real::from_parts(dice.below(1000) as i128 - 500, dice.below(40) as i64 - 30);
        if let Some(small) = small {
            within_range(&a.raised_to(&small));
            within_range(&small.raised_to(&a));
            within_range(&small.raised_to_int(n));
        }
    }
}

#[test]
fn numbers_at_the_ends_of_the_range_are_written() {
    let big = Real::from_parts(1, 100000).unwrap();
    assert_eq!(big.to_string().len(), 30103);
    let small = Real::from_parts(1, -1000).unwrap();
    assert!(small.to_string().starts_with("0.000000"));
    let mut dice = Dice(0x5555_aaaa_5555_aaab);
    for _ in 0..300 {
        let r = dice.number(false);
        assert!(!r.to_string().is_empty());
    }
}
