//! The adapter and the accessor traits over accessors of plain numbers.

use std::convert::Infallible;
use std::marker::PhantomData;

use serde_mobile::access::{complete_entry, key_then_value};
use serde_mobile::subordinate::rejoin;
use serde_mobile::{
    AccessAdapter, AccessAdapterState, DeserializeSeed, MapEntryAccess, MapKeyAccess,
    MapKeyAccessor, MapValueAccess, MapValueAccessor, Seed, SeqAccess, SeqAccessor,
    SubordinateValue, Unseeded,
};

/// Reads numbers; a negative one is an error.
#[derive(Debug, Clone, PartialEq)]
struct Numbers(Vec<i32>);

impl SeqAccessor for Numbers {
    type Error = String;

    fn size_hint(&self) -> Option<usize> {
        Some(self.0.len())
    }
}

fn checked(number: i32) -> Result<i32, String> {
    if number < 0 {
        Err(format!("negative: {}", number))
    } else {
        Ok(number)
    }
}

impl SeqAccess<PhantomData<i32>> for Numbers {
    fn next_element_seed(
        mut self,
        _seed: PhantomData<i32>,
    ) -> Result<Option<(i32, Self)>, String> {
        if self.0.is_empty() {
            return Ok(None);
        }
        let number = checked(self.0.remove(0))?;
        Ok(Some((number, self)))
    }
}

/// A seed that adds to what it reads.
#[derive(Debug, Clone, PartialEq)]
struct Plus(i32);

impl Seed for Plus {
    type Value = i32;
}

impl DeserializeSeed<i32> for Plus {
    type Error = String;

    fn deserialize(self, deserializer: i32) -> Result<i32, String> {
        checked(deserializer).map(|number| number + self.0)
    }
}

impl SeqAccess<Plus> for Numbers {
    fn next_element_seed(mut self, seed: Plus) -> Result<Option<(i32, Self)>, String> {
        if self.0.is_empty() {
            return Ok(None);
        }
        let number = seed.deserialize(self.0.remove(0))?;
        Ok(Some((number, self)))
    }
}

impl Unseeded for Numbers {}

/// An accessor that does not know its size.
struct Endless;

impl SeqAccessor for Endless {
    type Error = String;
}

impl SeqAccess<PhantomData<u8>> for Endless {
    fn next_element_seed(self, _seed: PhantomData<u8>) -> Result<Option<(u8, Self)>, String> {
        Ok(Some((7, self)))
    }
}

/// Reads pairs of numbers.
#[derive(Debug, Clone, PartialEq)]
struct Pairs(Vec<(i32, i32)>);

impl MapKeyAccessor for Pairs {
    type Error = String;
    type Value = SubordinateValue<i32, Pairs>;

    fn size_hint(&self) -> Option<usize> {
        Some(self.0.len())
    }
}

impl MapKeyAccess<Plus> for Pairs {
    fn next_key_seed(
        mut self,
        seed: Plus,
    ) -> Result<Option<(i32, SubordinateValue<i32, Pairs>)>, String> {
        if self.0.is_empty() {
            return Ok(None);
        }
        let (key, value) = self.0.remove(0);
        let key = seed.deserialize(key)?;
        Ok(Some((key, SubordinateValue { value, parent: self })))
    }
}

impl MapEntryAccess<Plus, Plus> for Pairs {}

type PairsAdapter = AccessAdapter<Pairs, SubordinateValue<i32, Pairs>>;

fn pairs(entries: &[(i32, i32)]) -> PairsAdapter {
    AccessAdapter::new(Pairs(entries.to_vec()))
}

#[test]
fn sequence_elements_come_in_order_and_then_none() {
    let mut adapter: AccessAdapter<Numbers, Infallible> =
        AccessAdapter::new(Numbers(vec![4, 5, 6]));
    assert_eq!(adapter.size_hint(), Some(3));
    assert_eq!(adapter.next_element_seed(PhantomData::<i32>), Ok(Some(4)));
    assert_eq!(adapter.size_hint(), Some(2));
    assert_eq!(adapter.next_element_seed(Plus(10)), Ok(Some(15)));
    assert_eq!(adapter.next_element_seed(PhantomData::<i32>), Ok(Some(6)));
    assert_eq!(adapter.size_hint(), Some(0));
    assert!(matches!(adapter.state(), AccessAdapterState::Ready(_)));
    for _ in 0..3 {
        assert_eq!(adapter.next_element_seed(PhantomData::<i32>), Ok(None));
        assert!(matches!(adapter.state(), AccessAdapterState::Dead));
        assert_eq!(adapter.size_hint(), Some(0));
    }
}

#[test]
fn sequence_is_exhausted_by_an_error() {
    let mut adapter: AccessAdapter<Numbers, Infallible> =
        AccessAdapter::new(Numbers(vec![1, -2, 3]));
    assert_eq!(adapter.next_element_seed(Plus(0)), Ok(Some(1)));
    assert_eq!(
        adapter.next_element_seed(Plus(0)),
        Err("negative: -2".to_string())
    );
    assert_eq!(adapter.next_element_seed(Plus(0)), Ok(None));
    assert_eq!(adapter.size_hint(), Some(0));
}

#[test]
fn sequence_adapter_returns_what_reading_by_move_returns() {
    let mut adapter: AccessAdapter<Numbers, Infallible> = AccessAdapter::new(Numbers(vec![8, 9]));
    let (first, rest) = Numbers(vec![8, 9]).next_element::<i32>().unwrap().unwrap();
    let (second, rest) = rest.next_element::<i32>().unwrap().unwrap();
    assert_eq!(rest, Numbers(vec![]));
    assert_eq!(adapter.next_element_seed(PhantomData::<i32>), Ok(Some(first)));
    assert_eq!(adapter.next_element_seed(PhantomData::<i32>), Ok(Some(second)));
    assert_eq!(rest.next_element::<i32>(), Ok(None));
    assert_eq!(adapter.next_element_seed(PhantomData::<i32>), Ok(None));
    assert_eq!((first, second), (8, 9));
}

#[test]
fn size_is_unknown_by_default() {
    assert_eq!(Endless.size_hint(), None);
    let mut adapter: AccessAdapter<Endless, Infallible> = AccessAdapter::new(Endless);
    assert_eq!(adapter.size_hint(), None);
    assert_eq!(adapter.next_element_seed(PhantomData::<u8>), Ok(Some(7)));
    adapter.take();
    assert_eq!(adapter.size_hint(), Some(0));
}

#[test]
fn map_keys_and_values_alternate() {
    let mut adapter = pairs(&[(1, 10), (2, 20)]);
    assert_eq!(adapter.size_hint(), Some(2));
    assert_eq!(adapter.next_key_seed(Plus(100)), Ok(Some(101)));
    match adapter.state() {
        AccessAdapterState::Value(waiting) => {
            assert_eq!(waiting.value, 10);
            assert_eq!(waiting.parent, Pairs(vec![(2, 20)]));
        }
        other => panic!("unexpected state {:?}", other),
    }
    assert_eq!(adapter.next_value_seed(Plus(200)), Ok(210));
    assert!(matches!(adapter.state(), AccessAdapterState::Ready(_)));
    assert_eq!(adapter.next_key_seed(Plus(0)), Ok(Some(2)));
    assert_eq!(adapter.next_value_seed(Plus(0)), Ok(20));
    assert_eq!(adapter.next_key_seed(Plus(0)), Ok(None));
    assert_eq!(adapter.next_key_seed(Plus(0)), Ok(None));
    assert_eq!(adapter.next_entry_seed(Plus(0), Plus(0)), Ok(None));
    assert_eq!(adapter.size_hint(), Some(0));
}

#[test]
fn waiting_entry_is_not_counted_by_the_size_hint() {
    let mut adapter = pairs(&[(1, 10), (2, 20), (3, 30)]);
    assert_eq!(adapter.size_hint(), Some(3));
    assert_eq!(adapter.next_key_seed(Plus(0)), Ok(Some(1)));
    assert_eq!(adapter.size_hint(), Some(2));
    assert_eq!(adapter.next_value_seed(Plus(0)), Ok(10));
    assert_eq!(adapter.size_hint(), Some(2));
}

#[test]
fn map_is_exhausted_by_an_error_in_a_key() {
    let mut adapter = pairs(&[(-1, 10), (2, 20)]);
    assert_eq!(
        adapter.next_key_seed(Plus(0)),
        Err("negative: -1".to_string())
    );
    assert!(matches!(adapter.state(), AccessAdapterState::Dead));
    assert_eq!(adapter.next_key_seed(Plus(0)), Ok(None));
}

#[test]
fn map_is_exhausted_by_an_error_in_a_value() {
    let mut adapter = pairs(&[(1, -10), (2, 20)]);
    assert_eq!(adapter.next_key_seed(Plus(0)), Ok(Some(1)));
    assert_eq!(
        adapter.next_value_seed(Plus(0)),
        Err("negative: -10".to_string())
    );
    assert!(matches!(adapter.state(), AccessAdapterState::Dead));
    assert_eq!(adapter.next_entry_seed(Plus(0), Plus(0)), Ok(None));
}

#[test]
fn map_is_exhausted_by_an_error_in_an_entry() {
    let mut adapter = pairs(&[(1, -10), (2, 20)]);
    assert_eq!(
        adapter.next_entry_seed(Plus(0), Plus(0)),
        Err("negative: -10".to_string())
    );
    assert_eq!(adapter.next_entry_seed(Plus(0), Plus(0)), Ok(None));
    assert_eq!(adapter.size_hint(), Some(0));
}

#[test]
fn entry_is_the_key_and_then_the_value() {
    let mut by_entry = pairs(&[(1, 10), (2, 20)]);
    let mut by_parts = pairs(&[(1, 10), (2, 20)]);
    for _ in 0..2 {
        let entry = by_entry.next_entry_seed(Plus(5), Plus(7)).unwrap().unwrap();
        let key = by_parts.next_key_seed(Plus(5)).unwrap().unwrap();
        let value = by_parts.next_value_seed(Plus(7)).unwrap();
        assert_eq!(entry, (key, value));
    }
    assert_eq!(by_entry.next_entry_seed(Plus(5), Plus(7)), Ok(None));
    assert_eq!(by_parts.next_key_seed(Plus(5)), Ok(None));
}

#[test]
fn entry_the_default_way_gives_each_seed_to_its_part() {
    let outcome = key_then_value(Pairs(vec![(1, 10), (2, 20)]), Plus(5), Plus(7));
    assert_eq!(outcome, Ok(Some(((6, 17), Pairs(vec![(2, 20)])))));
    assert_eq!(key_then_value(Pairs(vec![]), Plus(5), Plus(7)), Ok(None));
    assert_eq!(
        key_then_value(Pairs(vec![(-1, -10)]), Plus(5), Plus(7)),
        Err("negative: -1".to_string())
    );
    assert_eq!(
        key_then_value(Pairs(vec![(1, -10)]), Plus(5), Plus(7)),
        Err("negative: -10".to_string())
    );
}

/// A map accessor with a way of its own to read an entry.
#[derive(Debug, Clone, PartialEq)]
struct Constant;

impl MapKeyAccessor for Constant {
    type Error = String;
    type Value = Constant;
}

impl MapValueAccessor for Constant {
    type Error = String;
    type Key = Constant;
}

impl Unseeded for Constant {
    fn next_value<T>(self) -> Result<(T, Constant), String>
    where
        Self: MapValueAccess<PhantomData<T>>,
    {
        Err("values are not read as a type".to_string())
    }
}

impl<T> MapKeyAccess<PhantomData<T>> for Constant {
    fn next_key_seed(self, _seed: PhantomData<T>) -> Result<Option<(T, Constant)>, String> {
        Err("keys are not read on their own".to_string())
    }
}

impl<T> MapValueAccess<PhantomData<T>> for Constant {
    fn next_value_seed(self, _seed: PhantomData<T>) -> Result<(T, Constant), String> {
        Err("values are not read on their own".to_string())
    }
}

impl MapEntryAccess<PhantomData<u8>, PhantomData<u16>> for Constant {
    fn next_entry_seed(
        self,
        _kseed: PhantomData<u8>,
        _vseed: PhantomData<u16>,
    ) -> Result<Option<((u8, u16), Self)>, String> {
        Ok(Some(((1, 2), self)))
    }
}

#[test]
fn adapter_reads_entries_the_way_of_the_accessor() {
    let mut adapter: AccessAdapter<Constant, Constant> = AccessAdapter::new(Constant);
    for _ in 0..2 {
        assert_eq!(
            adapter.next_entry_seed(PhantomData::<u8>, PhantomData::<u16>),
            Ok(Some((1, 2)))
        );
    }
    assert_eq!(
        adapter.next_key_seed(PhantomData::<u8>),
        Err("keys are not read on their own".to_string())
    );
}

#[test]
fn requests_without_a_seed_name_the_type() {
    assert_eq!(
        Constant.next_entry::<u8, u16>(),
        Ok(Some(((1, 2), Constant)))
    );
    assert_eq!(
        Constant.next_key::<u8>(),
        Err("keys are not read on their own".to_string())
    );
    assert_eq!(
        Constant.next_value_seed(PhantomData::<u8>),
        Err("values are not read on their own".to_string())
    );
    assert_eq!(
        Numbers(vec![3]).next_element::<i32>(),
        Ok(Some((3, Numbers(vec![]))))
    );
}

#[test]
fn accessor_may_have_its_own_way_without_a_seed() {
    assert_eq!(
        Constant.next_value::<u8>(),
        Err("values are not read as a type".to_string())
    );
}

/// An accessor that reads sequences and maps, and is its own value accessor.
#[derive(Debug, Clone, PartialEq)]
struct Roles;

impl SeqAccessor for Roles {
    type Error = u8;

    fn size_hint(&self) -> Option<usize> {
        Some(10)
    }
}

impl MapKeyAccessor for Roles {
    type Error = String;
    type Value = Roles;

    fn size_hint(&self) -> Option<usize> {
        Some(5)
    }
}

impl MapValueAccessor for Roles {
    type Error = String;
    type Key = Roles;

    fn size_hint(&self) -> Option<usize> {
        Some(4)
    }
}

impl SeqAccess<PhantomData<u8>> for Roles {
    fn next_element_seed(self, _seed: PhantomData<u8>) -> Result<Option<(u8, Self)>, u8> {
        Err(99)
    }
}

impl MapKeyAccess<PhantomData<u8>> for Roles {
    fn next_key_seed(self, _seed: PhantomData<u8>) -> Result<Option<(u8, Roles)>, String> {
        Ok(Some((1, self)))
    }
}

impl MapValueAccess<PhantomData<u16>> for Roles {
    fn next_value_seed(self, _seed: PhantomData<u16>) -> Result<(u16, Roles), String> {
        Ok((2, self))
    }
}

#[test]
fn error_and_size_hint_belong_to_the_role() {
    let mut sequence: AccessAdapter<Roles, Infallible> = AccessAdapter::new(Roles);
    assert_eq!(sequence.size_hint(), Some(10));
    assert_eq!(sequence.next_element_seed(PhantomData::<u8>), Err(99));
    assert_eq!(sequence.size_hint(), Some(0));

    let mut map: AccessAdapter<Roles, Roles> = AccessAdapter::new(Roles);
    assert_eq!(map.size_hint(), Some(5));
    assert_eq!(map.next_key_seed(PhantomData::<u8>), Ok(Some(1)));
    assert_eq!(map.size_hint(), Some(4));
    assert_eq!(map.next_value_seed(PhantomData::<u16>), Ok(2));
    assert_eq!(map.size_hint(), Some(5));
}

#[test]
fn subordinate_value_hands_its_parent_back() {
    let waiting = SubordinateValue {
        value: 10,
        parent: Pairs(vec![(1, 2), (3, 4)]),
    };
    assert_eq!(waiting.size_hint(), Some(2));
    assert_eq!(
        waiting.clone().next_value_seed(Plus(5)),
        Ok((15, Pairs(vec![(1, 2), (3, 4)])))
    );
    let broken = SubordinateValue {
        value: -10,
        parent: waiting.parent,
    };
    assert_eq!(
        broken.next_value_seed(Plus(5)),
        Err("negative: -10".to_string())
    );
}

#[test]
fn subordinate_value_resumes_its_parent_in_the_adapter() {
    let mut adapter = pairs(&[(1, 10), (2, 20)]);
    assert_eq!(adapter.next_key_seed(Plus(0)), Ok(Some(1)));
    assert_eq!(adapter.next_value_seed(Plus(1)), Ok(11));
    match adapter.take() {
        AccessAdapterState::Ready(parent) => assert_eq!(parent, Pairs(vec![(2, 20)])),
        other => panic!("unexpected state {:?}", other),
    }
}

#[test]
fn take_leaves_nothing_behind() {
    let mut state: AccessAdapterState<u8, u16> = AccessAdapterState::Value(9);
    assert!(matches!(state.take(), AccessAdapterState::Value(9)));
    assert!(matches!(state, AccessAdapterState::Dead));
    assert!(matches!(state.take(), AccessAdapterState::Dead));

    let mut adapter = pairs(&[(1, 10)]);
    assert!(matches!(adapter.take(), AccessAdapterState::Ready(_)));
    assert!(matches!(adapter.state(), AccessAdapterState::Dead));
    assert_eq!(adapter.next_key_seed(Plus(0)), Ok(None));
}

#[test]
fn reply_to_an_element_is_settled() {
    let mut state: AccessAdapterState<u8, u16> = AccessAdapterState::Ready(1);
    assert_eq!(
        state.settle_next(Ok::<_, String>(Some(("item", 2)))),
        Ok(Some("item"))
    );
    assert!(matches!(state, AccessAdapterState::Ready(2)));
    assert_eq!(
        state.settle_next(Ok::<Option<(&str, u8)>, String>(None)),
        Ok(None)
    );
    assert!(matches!(state, AccessAdapterState::Ready(2)));
    state.take();
    assert_eq!(
        state.settle_next(Err::<Option<(&str, u8)>, _>("broken")),
        Err("broken")
    );
    assert!(matches!(state, AccessAdapterState::Dead));
}

#[test]
fn reply_to_a_key_is_settled() {
    let mut state: AccessAdapterState<u8, u16> = AccessAdapterState::Ready(1);
    assert_eq!(
        state.settle_key(Ok::<_, String>(Some(("key", 3)))),
        Ok(Some("key"))
    );
    assert!(matches!(state, AccessAdapterState::Value(3)));
    state.take();
    assert_eq!(
        state.settle_key(Ok::<Option<(&str, u16)>, String>(None)),
        Ok(None)
    );
    assert_eq!(
        state.settle_key(Err::<Option<(&str, u16)>, _>("broken")),
        Err("broken")
    );
    assert!(matches!(state, AccessAdapterState::Dead));
}

#[test]
fn reply_to_a_value_is_settled() {
    let mut state: AccessAdapterState<u8, u16> = AccessAdapterState::Ready(1);
    state.take();
    assert_eq!(
        state.settle_value(Err::<(&str, u8), _>("broken")),
        Err("broken")
    );
    assert!(matches!(state, AccessAdapterState::Dead));
    assert_eq!(
        state.settle_value(Ok::<_, String>(("value", 4))),
        Ok("value")
    );
    assert!(matches!(state, AccessAdapterState::Ready(4)));
}

#[test]
fn entry_is_completed_by_its_value() {
    assert_eq!(
        complete_entry("key", Ok::<_, String>(("value", 1))),
        Ok(Some((("key", "value"), 1)))
    );
    assert_eq!(
        complete_entry("key", Err::<(&str, u8), _>("broken")),
        Err("broken")
    );
}

#[test]
fn parent_is_rejoined_to_its_value() {
    assert_eq!(rejoin(1, Ok::<_, String>("value")), Ok(("value", 1)));
    assert_eq!(rejoin(1, Err::<&str, _>("broken")), Err("broken"));
}

#[test]
fn adapter_is_cloned_with_its_state() {
    let mut adapter = pairs(&[(1, 10)]);
    assert_eq!(adapter.next_key_seed(Plus(0)), Ok(Some(1)));
    let mut copy = adapter.clone();
    assert_eq!(adapter.next_value_seed(Plus(0)), Ok(10));
    assert_eq!(copy.next_value_seed(Plus(0)), Ok(10));
}

/// Reads a record whose fields have different types.
#[derive(Debug, Clone, PartialEq)]
struct Fields(Vec<i32>);

impl MapKeyAccessor for Fields {
    type Error = String;
    type Value = FieldValue;

    fn size_hint(&self) -> Option<usize> {
        Some(self.0.len())
    }
}

#[derive(Debug, Clone, PartialEq)]
struct FieldValue(i32, Fields);

impl MapValueAccessor for FieldValue {
    type Error = String;
    type Key = Fields;
}

impl MapKeyAccess<PhantomData<usize>> for Fields {
    fn next_key_seed(
        mut self,
        _seed: PhantomData<usize>,
    ) -> Result<Option<(usize, FieldValue)>, String> {
        if self.0.is_empty() {
            return Ok(None);
        }
        let value = self.0.remove(0);
        Ok(Some((self.0.len(), FieldValue(value, self))))
    }
}

impl MapValueAccess<PhantomData<bool>> for FieldValue {
    fn next_value_seed(self, _seed: PhantomData<bool>) -> Result<(bool, Fields), String> {
        match self.0 {
            0 => Ok((false, self.1)),
            1 => Ok((true, self.1)),
            other => Err(format!("not a truth value: {}", other)),
        }
    }
}

impl MapValueAccess<PhantomData<String>> for FieldValue {
    fn next_value_seed(self, _seed: PhantomData<String>) -> Result<(String, Fields), String> {
        Ok((self.0.to_string(), self.1))
    }
}

#[test]
fn fields_are_read_with_seeds_of_different_types() {
    let mut adapter: AccessAdapter<Fields, FieldValue> =
        AccessAdapter::new(Fields(vec![1, 7, 7, 8]));
    assert_eq!(adapter.next_key_seed(PhantomData::<usize>), Ok(Some(3)));
    assert_eq!(adapter.next_value_seed(PhantomData::<bool>), Ok(true));
    assert_eq!(adapter.next_key_seed(PhantomData::<usize>), Ok(Some(2)));
    assert_eq!(adapter.next_value_seed(PhantomData::<String>), Ok("7".to_string()));
    assert_eq!(adapter.next_key_seed(PhantomData::<usize>), Ok(Some(1)));
    assert_eq!(
        adapter.next_value_seed(PhantomData::<bool>),
        Err("not a truth value: 7".to_string())
    );
    assert_eq!(adapter.next_key_seed(PhantomData::<usize>), Ok(None));
    assert_eq!(adapter.size_hint(), Some(0));
}

#[test]
fn size_hint_is_the_number_of_entries_that_remain() {
    let mut adapter = pairs(&[(1, 10), (2, 20), (3, 30)]);
    let mut remaining = adapter.size_hint().unwrap();
    while let Some(_entry) = adapter.next_entry_seed(Plus(0), Plus(0)).unwrap() {
        remaining -= 1;
        assert_eq!(adapter.size_hint(), Some(remaining));
    }
    assert_eq!(remaining, 0);
}

/// A number that has not been checked yet.
#[derive(Debug, Clone, PartialEq)]
struct Raw(i32);

impl DeserializeSeed<Raw> for PhantomData<i32> {
    type Error = String;

    fn deserialize(self, deserializer: Raw) -> Result<i32, String> {
        checked(deserializer.0)
    }
}

#[test]
fn subordinate_value_is_read_without_a_seed() {
    let waiting = SubordinateValue {
        value: Raw(10),
        parent: Pairs(vec![(1, 2)]),
    };
    assert_eq!(waiting.next_value::<i32>(), Ok((10, Pairs(vec![(1, 2)]))));
    let broken = SubordinateValue {
        value: Raw(-10),
        parent: Pairs(vec![]),
    };
    assert_eq!(broken.next_value::<i32>(), Err("negative: -10".to_string()));
}

#[test]
fn size_hint_is_never_exceeded() {
    let mut adapter: AccessAdapter<Numbers, Infallible> =
        AccessAdapter::new(Numbers(vec![4, 5, 6]));
    let hint = adapter.size_hint().unwrap();
    let mut yielded = 0;
    while let Some(_element) = adapter.next_element_seed(Plus(0)).unwrap() {
        yielded += 1;
        assert!(yielded <= hint);
    }
    assert_eq!(yielded, hint);
}
