use pumpkin::args::{
    Arg, ArgumentType, BlockPosArgumentConsumer, CommandError, ConsumedArgs, CoordinateError,
    MaybeRelativeBlockCoordinate, MaybeRelativeBlockPos, Origin,
};
use pumpkin::number::Ratio;
use pumpkin::pos::BlockPos;

fn origin(x: (i64, u32), y: (i64, u32), z: (i64, u32)) -> Origin {
    Origin::new(Ratio::new(x.0, x.1), Ratio::new(y.0, y.1), Ratio::new(z.0, z.1))
}

fn cursor(tokens: &[&str]) -> Vec<String> {
    // the cursor pops from the end, so the first token goes last
    tokens.iter().rev().map(|t| t.to_string()).collect()
}

#[test]
fn relative_and_absolute_axes_resolve_with_floor() {
    let o = origin((3, 2), (64, 1), (-5, 2));
    let mut args = cursor(&["~", "~-1", "5"]);
    let r = BlockPosArgumentConsumer.consume(Some(o), &mut args);
    assert_eq!(r, Ok(BlockPos::new(1, 63, 5)));
    assert!(args.is_empty());
}

#[test]
fn negative_origin_floors_toward_negative_infinity() {
    let o = origin((3, 2), (64, 1), (-5, 2));
    let mut args = cursor(&["~", "~", "~"]);
    assert_eq!(BlockPosArgumentConsumer.consume(Some(o), &mut args), Ok(BlockPos::new(1, 64, -3)));
    assert_eq!(Ratio::new(-5, 2).floor(), -3);
    assert_eq!(Ratio::new(-4, 2).floor(), -2);
    assert_eq!(Ratio::new(5, 2).floor(), 2);
    assert_eq!(Ratio::new(i64::MIN, 1).floor(), i64::MIN);
    assert_eq!(Ratio::new(-1, 1024).floor(), -1);
}

#[test]
fn relative_without_origin_fails_and_consumes_nothing() {
    let mut args = cursor(&["1", "~2", "3"]);
    let before = args.clone();
    let r = BlockPosArgumentConsumer.consume(None, &mut args);
    assert_eq!(r, Err(CoordinateError::MissingOriginForRelative));
    assert_eq!(args, before);
}

#[test]
fn absolute_triple_needs_no_origin() {
    let mut args = cursor(&["-7", "+12", "0"]);
    args.insert(0, "rest".to_string());
    let r = BlockPosArgumentConsumer.consume(None, &mut args);
    assert_eq!(r, Ok(BlockPos::new(-7, 12, 0)));
    assert_eq!(args, vec!["rest".to_string()]);
}

#[test]
fn malformed_token_fails_the_whole_triple() {
    for bad in [["1", "x", "3"], ["~1.5", "2", "3"], ["1", "2", "-"], ["", "2", "3"], ["1", "2", "~~"]] {
        let mut args = cursor(&bad);
        let before = args.clone();
        let r = BlockPosArgumentConsumer.consume(None, &mut args);
        assert_eq!(r, Err(CoordinateError::ParseFailure));
        assert_eq!(args, before);
    }
    assert!(MaybeRelativeBlockPos::try_new("1", "2", "z").is_none());
}

#[test]
fn too_few_tokens_fail() {
    let mut args = cursor(&["1", "2"]);
    assert_eq!(BlockPosArgumentConsumer.consume(None, &mut args), Err(CoordinateError::ParseFailure));
    assert_eq!(args.len(), 2);
}

#[test]
fn i32_bounds_of_tokens() {
    let mut args = cursor(&["-2147483648", "2147483647", "0"]);
    assert_eq!(
        BlockPosArgumentConsumer.consume(None, &mut args),
        Ok(BlockPos::new(i32::MIN, i32::MAX, 0))
    );
    let mut args = cursor(&["2147483648", "0", "0"]);
    assert_eq!(BlockPosArgumentConsumer.consume(None, &mut args), Err(CoordinateError::ParseFailure));
    let mut args = cursor(&["-2147483649", "0", "0"]);
    assert_eq!(BlockPosArgumentConsumer.consume(None, &mut args), Err(CoordinateError::ParseFailure));
}

#[test]
fn relative_out_of_range_is_reported() {
    let o = origin((2147483647, 1), (0, 1), (0, 1));
    let mut args = cursor(&["~1", "0", "0"]);
    assert_eq!(BlockPosArgumentConsumer.consume(Some(o), &mut args), Err(CoordinateError::OutOfRange));
    assert_eq!(args.len(), 3);
}

#[test]
fn coordinate_tokens_parse() {
    let c = MaybeRelativeBlockCoordinate::parse("~", true).unwrap();
    assert!(c.relative && c.value == 0 && c.vertical);
    let c = MaybeRelativeBlockCoordinate::parse("~-1", false).unwrap();
    assert!(c.relative && c.value == -1 && !c.vertical);
    let c = MaybeRelativeBlockCoordinate::parse("42", false).unwrap();
    assert!(!c.relative && c.value == 42);
    assert!(MaybeRelativeBlockCoordinate::parse("4 2", false).is_none());
    let p = MaybeRelativeBlockPos::try_new("~", "~-1", "5").unwrap();
    assert!(!p.0.vertical && p.1.vertical && !p.2.vertical);
    assert_eq!(p.try_to_absolute(None), Err(CoordinateError::MissingOriginForRelative));
}

#[test]
fn consumer_metadata() {
    let c = BlockPosArgumentConsumer;
    assert_eq!(c.default_name(), "block_pos");
    assert_eq!(c.get_client_side_parser(), ArgumentType::BlockPos);
    assert!(c.get_client_side_suggestion_type_override().is_none());
    assert!(c.suggest("~ ~ ").is_none());
}

#[test]
fn find_arg_by_name_and_kind() {
    let mut args = ConsumedArgs::new();
    args.insert("pos".to_string(), Arg::BlockPos(BlockPos::new(1, 2, 3)));
    args.insert("name".to_string(), Arg::Simple("x".to_string()));
    assert_eq!(BlockPosArgumentConsumer::find_arg(&args, "pos").unwrap(), BlockPos::new(1, 2, 3));
    match BlockPosArgumentConsumer::find_arg(&args, "name") {
        Err(CommandError::InvalidConsumption(Some(n))) => assert_eq!(n, "name"),
        other => panic!("unexpected {:?}", other),
    }
    match BlockPosArgumentConsumer::find_arg(&args, "missing") {
        Err(CommandError::InvalidConsumption(Some(n))) => assert_eq!(n, "missing"),
        other => panic!("unexpected {:?}", other),
    }
    args.insert("pos".to_string(), Arg::BlockPos(BlockPos::new(4, 5, 6)));
    assert_eq!(BlockPosArgumentConsumer::find_arg(&args, "pos").unwrap(), BlockPos::new(4, 5, 6));
    assert!(matches!(args.get("name"), Some(Arg::Simple(s)) if s == "x"));
}
