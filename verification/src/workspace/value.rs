//! The values of the configuration file, as far as the settings read them.
use vstd::prelude::*;

verus! {

/// A value of the configuration file. Of a float nothing is read.
#[derive(Debug, PartialEq)]
pub enum ConfigValue {
    String(String),
    Integer(i64),
    Float,
    Boolean(bool),
    Datetime(String),
    Array(Vec<ConfigValue>),
    Table(ConfigTable),
}

/// A table of the configuration file: a map of the `toml` library from keys to
/// values, each key once.
#[verifier::external_body]
#[derive(Debug, PartialEq)]
pub struct ConfigTable {
    map: toml::map::Map<String, ConfigValue>,
}

#[verifier::external_type_specification]
#[verifier::external_body]
pub struct ExTomlValue(toml::Value);

/// What `str::parse::<toml::Table>` makes of a text: nothing where the `toml`
/// library refuses it, else the entries of the table, each value as the
/// settings read it, in the order in which the map walks them.
pub uninterp spec fn toml_table(text: Seq<char>) -> Option<Seq<(String, ConfigValue)>>;

/// A value of the `toml` library as the settings read it, one for one: of a
/// float only that it is one, of a date its text.
#[verifier::external_body]
fn config_value_of(value: toml::Value) -> ConfigValue {
    match value {
        toml::Value::String(s) => ConfigValue::String(s),
        toml::Value::Integer(i) => ConfigValue::Integer(i),
        toml::Value::Float(_) => ConfigValue::Float,
        toml::Value::Boolean(b) => ConfigValue::Boolean(b),
        toml::Value::Datetime(d) => ConfigValue::Datetime(d.to_string()),
        toml::Value::Array(items) => ConfigValue::Array(items.into_iter().map(config_value_of).collect()),
        toml::Value::Table(t) => ConfigValue::Table(
            ConfigTable { map: t.into_iter().map(|(k, v)| (k, config_value_of(v))).collect() },
        ),
    }
}

/// The entries of a table, in the order in which the map walks them.
pub uninterp spec fn table_entries(t: ConfigTable) -> Seq<(String, ConfigValue)>;

impl View for ConfigTable {
    type V = Seq<(String, ConfigValue)>;

    open spec fn view(&self) -> Seq<(String, ConfigValue)> {
        table_entries(*self)
    }
}

impl ConfigTable {
    /// `str::parse::<toml::Table>`: the table that a TOML text holds, with its
    /// values converted one for one, or the error of the `toml` library.
    #[verifier::external_body]
    pub fn parse(text: &str) -> (r: Result<ConfigTable, toml::de::Error>)
        ensures
            r is Ok <==> toml_table(text@) is Some,
            r matches Ok(t) ==> t@ == toml_table(text@)->0,
    {
        let table = text.parse::<toml::Table>()?;
        Ok(ConfigTable { map: table.into_iter().map(|(k, v)| (k, config_value_of(v))).collect() })
    }

    /// `toml::map::Map::new`: an empty map.
    #[verifier::external_body]
    pub fn new() -> (t: ConfigTable)
        ensures
            table_entries(t) == Seq::<(String, ConfigValue)>::empty(),
    {
        ConfigTable { map: toml::map::Map::new() }
    }

    /// `toml::map::Map::len`: the number of entries.
    #[verifier::external_body]
    pub fn len(&self) -> (n: usize)
        ensures
            n == table_entries(*self).len(),
    {
        self.map.len()
    }

    /// `toml::map::Map::get`: the value under `key`, if the map has one (a map
    /// holds each key once, so that is the value of the only entry of that key).
    #[verifier::external_body]
    pub fn get(&self, key: &str) -> (r: Option<&ConfigValue>)
        ensures
            r matches Some(v) ==> lookup(self@, key@) == Some(*v),
            r is None ==> lookup(self@, key@) is None,
    {
        self.map.get(key)
    }

    /// `toml::map::Map::insert`: puts `value` under `key`, in place of the
    /// value the key had. Where a new key goes in the walking order depends on
    /// how the `toml` library is built, so only the map is stated.
    #[verifier::external_body]
    pub fn insert(&mut self, key: String, value: ConfigValue)
        ensures
            entries_map(final(self)@) == entries_map(old(self)@).insert(key@, value),
    {
        self.map.insert(key, value);
    }

    /// `toml::map::Map::remove`: takes the value under `key` out of the map,
    /// if the map has one.
    #[verifier::external_body]
    pub fn remove(&mut self, key: &str) -> (r: Option<ConfigValue>)
        ensures
            r == lookup(old(self)@, key@),
            entries_map(final(self)@) == entries_map(old(self)@).remove(key@),
    {
        self.map.remove(key)
    }

    /// `toml::map::Map::iter`: the entries in walking order, each key once.
    #[verifier::external_body]
    pub fn entries(&self) -> (r: Vec<(&String, &ConfigValue)>)
        ensures
            r@.len() == self@.len(),
            forall|i: int| 0 <= i < r@.len() ==> *(#[trigger] r@[i]).0 == self@[i].0 && *r@[i].1 == self@[i].1,
            forall|i: int, j: int|
                0 <= i < r@.len() && 0 <= j < r@.len() && i != j ==> (#[trigger] r@[i]).0@ != (
                #[trigger] r@[j]).0@,
    {
        self.map.iter().collect()
    }

    /// `toml::map::Map::into_iter`: the entries in walking order.
    #[verifier::external_body]
    pub fn into_entries(self) -> (r: Vec<(String, ConfigValue)>)
        ensures
            r@ == table_entries(self),
    {
        self.map.into_iter().collect()
    }

    /// A table of the given entries, a later entry of a key replacing an
    /// earlier one.
    pub fn from_entries(entries: Vec<(String, ConfigValue)>) -> (t: ConfigTable)
        ensures
            entries_map(t@) == entries_map(entries@),
    {
        let ghost all = entries@;
        let mut t = ConfigTable::new();
        let mut rest = entries;
        let total = rest.len();
        let mut n: usize = 0;
        assert(entries_map(all.take(0)) =~= entries_map(t@));
        while rest.len() > 0
            invariant
                n + rest@.len() == all.len() == total,
                rest@ == all.skip(n as int),
                entries_map(t@) == entries_map(all.take(n as int)),
            decreases rest.len(),
        {
            let (k, v) = rest.remove(0);
            assert(all[n as int] == (k, v));
            assert(all.take(n + 1).drop_last() =~= all.take(n as int));
            assert(all.take(n + 1).last() == all[n as int]);
            t.insert(k, v);
            proof {
                assert(entries_map(all.take(n + 1)) =~= entries_map(all.take(n as int)).insert(
                    all[n as int].0@,
                    all[n as int].1,
                ));
            }
            n = n + 1;
        }
        assert(all.take(n as int) =~= all);
        t
    }
}

/// The value under `key`, if any.
pub open spec fn lookup(entries: Seq<(String, ConfigValue)>, key: Seq<char>) -> Option<ConfigValue>
    decreases entries.len(),
{
    if entries.len() == 0 {
        None
    } else if entries.last().0@ == key {
        Some(entries.last().1)
    } else {
        lookup(entries.drop_last(), key)
    }
}

/// The entries as a map from keys to values.
pub open spec fn entries_map(entries: Seq<(String, ConfigValue)>) -> Map<Seq<char>, ConfigValue> {
    Map::new(|k: Seq<char>| lookup(entries, k) is Some, |k: Seq<char>| lookup(entries, k)->0)
}

} // verus!
