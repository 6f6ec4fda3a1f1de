use std::collections::HashMap;
use vstd::prelude::*;

verus! {

broadcast use vstd::std_specs::hash::group_hash_axioms;

/// The states of a piece of text that are shown in different colors.
#[derive(PartialEq, Eq, Structural, Hash, Copy, Clone, Debug)]
pub enum ColorType {
    Normal,
    Highlighted,
    HighlightedActive,
    Error,
}

/// The number under which a state of text is filed.
pub open spec fn code_of(color: ColorType) -> u8 {
    match color {
        ColorType::Normal => 0,
        ColorType::Highlighted => 1,
        ColorType::HighlightedActive => 2,
        ColorType::Error => 3,
    }
}

fn code(color: ColorType) -> (r: u8)
    ensures
        r == code_of(color),
{
    match color {
        ColorType::Normal => 0,
        ColorType::Highlighted => 1,
        ColorType::HighlightedActive => 2,
        ColorType::Error => 3,
    }
}

/// The number of the color pair that each state of text is painted in.
#[derive(Debug)]
pub struct Colors {
    map: HashMap<u8, i16>,
}

impl View for Colors {
    type V = Map<ColorType, i16>;

    closed spec fn view(&self) -> Map<ColorType, i16> {
        Map::new(
            |c: ColorType| self.map@.contains_key(code_of(c)),
            |c: ColorType| self.map@[code_of(c)],
        )
    }
}

impl Clone for Colors {
    fn clone(&self) -> (r: Self)
        ensures
            r@ == self@,
    {
        let r = Colors { map: self.map.clone() };
        assert(r@ =~= self@);
        r
    }
}

impl Colors {
    /// No state has a color pair yet.
    pub fn new() -> (r: Colors)
        ensures
            r@ == Map::<ColorType, i16>::empty(),
    {
        let r = Colors { map: HashMap::new() };
        assert(r@ =~= Map::<ColorType, i16>::empty());
        r
    }

    /// Gives `color` the pair `num`, in place of the pair it had.
    pub fn insert(&mut self, color: ColorType, num: i16)
        ensures
            final(self)@ == old(self)@.insert(color, num),
    {
        self.map.insert(code(color), num);
        assert(self@ =~= old(self)@.insert(color, num));
    }

    /// The pair of `color`, which must have one.
    pub fn get(&self, color: ColorType) -> (r: i16)
        requires
            self@.contains_key(color),
        ensures
            r == self@[color],
    {
        let key: u8 = code(color);
        *self.map.get(&key).unwrap()
    }

    /// The pair of `color`, if it has one.
    pub fn lookup(&self, color: ColorType) -> (r: Option<i16>)
        ensures
            match r {
                Some(n) => self@.contains_key(color) && self@[color] == n,
                None => !self@.contains_key(color),
            },
    {
        let key: u8 = code(color);
        match self.map.get(&key) {
            Some(n) => Some(*n),
            None => None,
        }
    }
}

/// The color pairs of the interface: 0 for normal text, 1 for the
/// highlighted line of a menu that is not in use, 2 for that of the menu in
/// use, 3 for errors.
pub open spec fn color_pairs() -> Map<ColorType, i16> {
    map![
        ColorType::Normal => 0i16,
        ColorType::Highlighted => 1i16,
        ColorType::HighlightedActive => 2i16,
        ColorType::Error => 3i16,
    ]
}

/// Sets up the color pairs of the interface.
pub fn set_colors() -> (r: Colors)
    ensures
        r@ == color_pairs(),
{
    let mut colors = Colors::new();
    colors.insert(ColorType::Normal, 0);
    colors.insert(ColorType::Highlighted, 1);
    colors.insert(ColorType::HighlightedActive, 2);
    colors.insert(ColorType::Error, 3);
    assert(colors@ =~= map![
        ColorType::Normal => 0i16,
        ColorType::Highlighted => 1i16,
        ColorType::HighlightedActive => 2i16,
        ColorType::Error => 3i16,
    ]);
    colors
}

} // verus!
