use vstd::prelude::*;
use crate::number::{Ratio, floor_of, i32_value, parse_i32_from};
use crate::pos::BlockPos;
use crate::text::chars_of;

verus! {

/// Why a block position could not be read from its tokens.
#[derive(Clone, Copy, Debug, PartialEq, Eq, Structural)]
pub enum CoordinateError {
    /// Fewer than three tokens, or one that is neither `~[offset]` nor an integer.
    ParseFailure,
    /// A relative axis, and a sender without a position.
    MissingOriginForRelative,
    /// A resolved axis that does not fit an `i32`.
    OutOfRange,
}

/// One axis as written: relative to the origin (`~` or `~<offset>`) or
/// absolute, with the axis role fixed when the consumer is built.
#[derive(Clone, Copy, Debug, PartialEq, Eq, Structural)]
pub struct MaybeRelativeBlockCoordinate {
    pub relative: bool,
    pub value: i32,
    pub vertical: bool,
}

/// The axis that a token denotes: relative flag and number.
pub open spec fn coordinate_of(token: Seq<char>) -> Option<(bool, int)> {
    if token.len() > 0 && token[0] == '~' {
        let rest = token.skip(1);
        if rest.len() == 0 {
            Some((true, 0))
        } else {
            match i32_value(rest) {
                Some(v) => Some((true, v)),
                None => None,
            }
        }
    } else {
        match i32_value(token) {
            Some(v) => Some((false, v)),
            None => None,
        }
    }
}

/// The integer coordinate of one axis; the floor of the origin plus the
/// offset where the axis is relative.
pub open spec fn resolve_axis(
    relative: bool,
    value: int,
    origin: Option<Ratio>,
) -> Result<int, CoordinateError> {
    if !relative {
        Ok(value)
    } else {
        match origin {
            None => Err(CoordinateError::MissingOriginForRelative),
            Some(o) => {
                let v = floor_of(o) + value;
                if i32::MIN <= v <= i32::MAX {
                    Ok(v)
                } else {
                    Err(CoordinateError::OutOfRange)
                }
            },
        }
    }
}

impl MaybeRelativeBlockCoordinate {
    pub fn parse(token: &str, vertical: bool) -> (r: Option<MaybeRelativeBlockCoordinate>)
        ensures
            match r {
                Some(c) => coordinate_of(token@) == Some((c.relative, c.value as int))
                    && c.vertical == vertical,
                None => coordinate_of(token@) is None,
            },
    {
        let s = chars_of(token);
        if s.len() > 0 && s[0] == '~' {
            if s.len() == 1 {
                proof {
                    assert(token@.skip(1).len() == 0);
                }
                return Some(MaybeRelativeBlockCoordinate { relative: true, value: 0, vertical });
            }
            match parse_i32_from(&s, 1) {
                Some(v) => Some(MaybeRelativeBlockCoordinate { relative: true, value: v, vertical }),
                None => None,
            }
        } else {
            proof {
                assert(s@.skip(0) =~= s@);
            }
            match parse_i32_from(&s, 0) {
                Some(v) => Some(MaybeRelativeBlockCoordinate { relative: false, value: v, vertical }),
                None => None,
            }
        }
    }

    pub fn into_absolute(self, origin: Option<Ratio>) -> (r: Result<i32, CoordinateError>)
        requires
            origin matches Some(o) ==> o.wf(),
        ensures
            match r {
                Ok(v) => resolve_axis(self.relative, self.value as int, origin) == Ok::<
                    int,
                    CoordinateError,
                >(v as int),
                Err(e) => resolve_axis(self.relative, self.value as int, origin) == Err::<
                    int,
                    CoordinateError,
                >(e),
            },
    {
        if !self.relative {
            return Ok(self.value);
        }
        match origin {
            None => Err(CoordinateError::MissingOriginForRelative),
            Some(o) => {
                let v: i128 = o.floor() as i128 + self.value as i128;
                if -2147483648 <= v && v <= 2147483647 {
                    Ok(v as i32)
                } else {
                    Err(CoordinateError::OutOfRange)
                }
            },
        }
    }
}

/// The sender's position, each axis an exact rational.
#[derive(Clone, Copy, Debug, PartialEq, Eq, Structural)]
pub struct Origin {
    pub x: Ratio,
    pub y: Ratio,
    pub z: Ratio,
}

impl Origin {
    pub open spec fn wf(self) -> bool {
        self.x.wf() && self.y.wf() && self.z.wf()
    }

    pub fn new(x: Ratio, y: Ratio, z: Ratio) -> (r: Origin)
        ensures
            r == (Origin { x, y, z }),
    {
        Origin { x, y, z }
    }
}

pub open spec fn origin_axis(origin: Option<Origin>, axis: int) -> Option<Ratio> {
    match origin {
        None => None,
        Some(o) => Some(
            if axis == 0 {
                o.x
            } else if axis == 1 {
                o.y
            } else {
                o.z
            },
        ),
    }
}

/// Three axes as written, x and z horizontal, y vertical.
pub struct MaybeRelativeBlockPos(
    pub MaybeRelativeBlockCoordinate,
    pub MaybeRelativeBlockCoordinate,
    pub MaybeRelativeBlockCoordinate,
);

/// The position that three parsed axes resolve to, axes tried in order x, y, z.
pub open spec fn resolve(
    x: (bool, int),
    y: (bool, int),
    z: (bool, int),
    origin: Option<Origin>,
) -> Result<BlockPos, CoordinateError> {
    match resolve_axis(x.0, x.1, origin_axis(origin, 0)) {
        Err(e) => Err(e),
        Ok(a) => match resolve_axis(y.0, y.1, origin_axis(origin, 1)) {
            Err(e) => Err(e),
            Ok(b) => match resolve_axis(z.0, z.1, origin_axis(origin, 2)) {
                Err(e) => Err(e),
                Ok(c) => Ok(BlockPos { x: a as i32, y: b as i32, z: c as i32 }),
            },
        },
    }
}

/// What three tokens give: a parse failure where any of them is malformed,
/// else their resolution against `origin`.
pub open spec fn block_pos_of(
    x: Seq<char>,
    y: Seq<char>,
    z: Seq<char>,
    origin: Option<Origin>,
) -> Result<BlockPos, CoordinateError> {
    match (coordinate_of(x), coordinate_of(y), coordinate_of(z)) {
        (Some(a), Some(b), Some(c)) => resolve(a, b, c, origin),
        _ => Err(CoordinateError::ParseFailure),
    }
}

impl MaybeRelativeBlockPos {
    pub open spec fn axes(&self) -> ((bool, int), (bool, int), (bool, int)) {
        (
            (self.0.relative, self.0.value as int),
            (self.1.relative, self.1.value as int),
            (self.2.relative, self.2.value as int),
        )
    }

    /// Parses the three tokens; fails as a whole where any one is malformed.
    pub fn try_new(x: &str, y: &str, z: &str) -> (r: Option<MaybeRelativeBlockPos>)
        ensures
            match r {
                Some(p) => coordinate_of(x@) == Some(p.axes().0) && coordinate_of(y@) == Some(
                    p.axes().1,
                ) && coordinate_of(z@) == Some(p.axes().2) && !p.0.vertical && p.1.vertical
                    && !p.2.vertical,
                None => coordinate_of(x@) is None || coordinate_of(y@) is None || coordinate_of(
                    z@,
                ) is None,
            },
    {
        let a = match MaybeRelativeBlockCoordinate::parse(x, false) {
            Some(a) => a,
            None => return None,
        };
        let b = match MaybeRelativeBlockCoordinate::parse(y, true) {
            Some(b) => b,
            None => return None,
        };
        let c = match MaybeRelativeBlockCoordinate::parse(z, false) {
            Some(c) => c,
            None => return None,
        };
        Some(MaybeRelativeBlockPos(a, b, c))
    }

    /// Resolves every axis or none.
    pub fn try_to_absolute(self, origin: Option<Origin>) -> (r: Result<BlockPos, CoordinateError>)
        requires
            origin matches Some(o) ==> o.wf(),
        ensures
            r == resolve(self.axes().0, self.axes().1, self.axes().2, origin),
    {
        let (ox, oy, oz) = match origin {
            Some(o) => (Some(o.x), Some(o.y), Some(o.z)),
            None => (None, None, None),
        };
        let x = match self.0.into_absolute(ox) {
            Ok(v) => v,
            Err(e) => return Err(e),
        };
        let y = match self.1.into_absolute(oy) {
            Ok(v) => v,
            Err(e) => return Err(e),
        };
        let z = match self.2.into_absolute(oz) {
            Ok(v) => v,
            Err(e) => return Err(e),
        };
        Ok(BlockPos { x, y, z })
    }
}

} // verus!

verus! {

/// The parser kind that clients are told about.
#[derive(Clone, Copy, Debug, PartialEq, Eq, Structural)]
pub enum ArgumentType {
    BlockPos,
}

/// Named client-side suggestion providers.
#[derive(Clone, Copy, Debug, PartialEq, Eq, Structural)]
pub enum SuggestionProviders {
    AskServer,
    AllRecipes,
    AvailableSounds,
    SummonableEntities,
}

/// A consumed argument value.
#[derive(Debug)]
pub enum Arg {
    BlockPos(BlockPos),
    Simple(String),
}

/// An error of the command layer.
#[derive(Debug)]
pub enum CommandError {
    /// The argument under this name is absent, or of another kind.
    InvalidConsumption(Option<String>),
}

/// The value stored under `name` in `entries`.
pub open spec fn arg_in(entries: Seq<(String, Arg)>, name: Seq<char>) -> Option<Arg> {
    if exists|i: int| 0 <= i < entries.len() && entries[i].0@ == name {
        Some(entries[choose|i: int| 0 <= i < entries.len() && entries[i].0@ == name].1)
    } else {
        None
    }
}

/// The arguments of one command invocation, by name.
pub struct ConsumedArgs {
    entries: Vec<(String, Arg)>,
}

impl ConsumedArgs {
    /// Each name is stored at most once.
    pub closed spec fn wf(&self) -> bool {
        forall|i: int, j: int|
            0 <= i < j < self.entries@.len() ==> self.entries@[i].0@ != self.entries@[j].0@
    }

    pub closed spec fn spec_get(&self, name: Seq<char>) -> Option<Arg> {
        arg_in(self.entries@, name)
    }

    pub fn new() -> (r: ConsumedArgs)
        ensures
            r.wf(),
            forall|n: Seq<char>| r.spec_get(n) is None,
    {
        ConsumedArgs { entries: Vec::new() }
    }

    fn find(&self, name: &String) -> (r: Option<usize>)
        requires
            self.wf(),
        ensures
            match r {
                Some(i) => i < self.entries@.len() && self.entries@[i as int].0@ == name@
                    && self.spec_get(name@) == Some(self.entries@[i as int].1),
                None => self.spec_get(name@) is None && forall|k: int|
                    0 <= k < self.entries@.len() ==> self.entries@[k].0@ != name@,
            },
    {
        let mut i: usize = 0;
        while i < self.entries.len()
            invariant
                self.wf(),
                i <= self.entries@.len(),
                forall|k: int| 0 <= k < i ==> self.entries@[k].0@ != name@,
            decreases self.entries@.len() - i,
        {
            if self.entries[i].0 == *name {
                proof {
                    assert(self.entries@[i as int].0@ == name@);
                    let c = choose|k: int| 0 <= k < self.entries@.len() && self.entries@[k].0@ == name@;
                    assert(c == i as int);
                }
                return Some(i);
            }
            i = i + 1;
        }
        None
    }

    /// The value under `name`.
    pub fn get(&self, name: &str) -> (r: Option<&Arg>)
        requires
            self.wf(),
        ensures
            match r {
                Some(a) => self.spec_get(name@) == Some(*a),
                None => self.spec_get(name@) is None,
            },
    {
        let key = name.to_owned();
        match self.find(&key) {
            Some(i) => Some(&self.entries[i].1),
            None => None,
        }
    }

    /// Stores `arg` under `name`, replacing what was there; other names keep
    /// their values.
    pub fn insert(&mut self, name: String, arg: Arg)
        requires
            old(self).wf(),
        ensures
            final(self).wf(),
            final(self).spec_get(name@) == Some(arg),
            forall|n: Seq<char>| n != name@ ==> final(self).spec_get(n) == old(self).spec_get(n),
    {
        let ghost before = self.entries@;
        let ghost key = name@;
        let ghost value = arg;
        match self.find(&name) {
            Some(i) => {
                self.entries.set(i, (name, arg));
                proof {
                    assert(self.entries@[i as int].0@ == key);
                    let c = choose|k: int| 0 <= k < self.entries@.len() && self.entries@[k].0@ == key;
                    assert(c == i as int);
                    assert forall|n: Seq<char>| n != key implies arg_in(self.entries@, n) == arg_in(before, n) by {
                        if exists|k: int| 0 <= k < before.len() && before[k].0@ == n {
                            let k = choose|k: int| 0 <= k < before.len() && before[k].0@ == n;
                            assert(self.entries@[k].0@ == n);
                            let c = choose|k: int| 0 <= k < self.entries@.len() && self.entries@[k].0@ == n;
                            assert(c == k);
                        } else {
                            assert forall|k: int| 0 <= k < self.entries@.len() implies self.entries@[k].0@ != n by {
                                if k != i {
                                    assert(self.entries@[k] == before[k]);
                                }
                            }
                        }
                    }
                }
            },
            None => {
                self.entries.push((name, arg));
                proof {
                    let m = before.len() as int;
                    assert(self.entries@[m].0@ == key);
                    let c = choose|k: int| 0 <= k < self.entries@.len() && self.entries@[k].0@ == key;
                    assert(c == m);
                    assert forall|n: Seq<char>| n != key implies arg_in(self.entries@, n) == arg_in(before, n) by {
                        if exists|k: int| 0 <= k < before.len() && before[k].0@ == n {
                            let k = choose|k: int| 0 <= k < before.len() && before[k].0@ == n;
                            assert(self.entries@[k].0@ == n);
                        } else {
                            assert forall|k: int| 0 <= k < self.entries@.len() implies self.entries@[k].0@ != n by {
                                if k < m {
                                    assert(self.entries@[k] == before[k]);
                                }
                            }
                        }
                    }
                }
            },
        }
    }
}

/// The token cursor pops from the end: the last token is the next one.
pub open spec fn next_tokens(args: Seq<String>) -> (Seq<char>, Seq<char>, Seq<char>) {
    (args[args.len() - 1]@, args[args.len() - 2]@, args[args.len() - 3]@)
}

/// Consumer of a block position argument: three coordinate tokens.
#[derive(Clone, Copy, Debug, PartialEq, Eq, Structural)]
pub struct BlockPosArgumentConsumer;

impl BlockPosArgumentConsumer {
    pub fn get_client_side_parser(&self) -> (r: ArgumentType)
        ensures
            r == ArgumentType::BlockPos,
    {
        ArgumentType::BlockPos
    }

    pub fn get_client_side_suggestion_type_override(&self) -> (r: Option<SuggestionProviders>)
        ensures
            r is None,
    {
        None
    }

    /// The name of an unnamed declaration.
    pub fn default_name(&self) -> (r: &'static str)
        ensures
            r@ == "block_pos"@,
    {
        proof {
            reveal_strlit("block_pos");
        }
        "block_pos"
    }

    /// Three tokens have nothing to complete from the server.
    pub fn suggest(&self, input: &str) -> (r: Option<Vec<String>>)
        ensures
            r is None,
    {
        None
    }

    /// Pops three tokens and resolves them against the sender's position;
    /// on any failure the cursor is left as it was.
    pub fn consume(&self, origin: Option<Origin>, args: &mut Vec<String>) -> (r: Result<
        BlockPos,
        CoordinateError,
    >)
        requires
            origin matches Some(o) ==> o.wf(),
        ensures
            old(args)@.len() < 3 ==> r == Err::<BlockPos, CoordinateError>(
                CoordinateError::ParseFailure,
            ),
            old(args)@.len() >= 3 ==> r == block_pos_of(
                next_tokens(old(args)@).0,
                next_tokens(old(args)@).1,
                next_tokens(old(args)@).2,
                origin,
            ),
            r is Ok ==> final(args)@ == old(args)@.take(old(args)@.len() - 3),
            r is Err ==> final(args)@ == old(args)@,
    {
        let n = args.len();
        if n < 3 {
            return Err(CoordinateError::ParseFailure);
        }
        let pos = match MaybeRelativeBlockPos::try_new(
            args[n - 1].as_str(),
            args[n - 2].as_str(),
            args[n - 3].as_str(),
        ) {
            Some(p) => p,
            None => return Err(CoordinateError::ParseFailure),
        };
        let r = pos.try_to_absolute(origin);
        if r.is_ok() {
            args.truncate(n - 3);
        }
        r
    }

    /// The block position stored under `name`; an error that carries the name
    /// where none is stored or the value is of another kind.
    pub fn find_arg(args: &ConsumedArgs, name: &str) -> (r: Result<BlockPos, CommandError>)
        requires
            args.wf(),
        ensures
            match args.spec_get(name@) {
                Some(Arg::BlockPos(p)) => r matches Ok(q) && q == p,
                _ => r matches Err(CommandError::InvalidConsumption(Some(n))) && n@ == name@,
            },
    {
        match args.get(name) {
            Some(Arg::BlockPos(data)) => Ok(*data),
            _ => Err(CommandError::InvalidConsumption(Some(name.to_owned()))),
        }
    }
}

} // verus!
