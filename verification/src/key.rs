//! The keys by which single settings are addressed, and their dotted paths.
//!
//! A path is a sequence of segments separated by dots. The path of a setting
//! of the cloud-connector block is either `c8y.url`, which addresses the
//! unnamed instance, or `c8y.<name>.url`, which addresses the instance
//! `<name>`. The second segment is taken as the setting when it is the name
//! of a setting, and as an instance name otherwise.

use crate::error::{ConfigError, ConfigErrorView};
use crate::text::{contains_char, str_equal};
use vstd::prelude::*;

verus! {

/// The settings that can be read.
#[derive(Clone, Debug, PartialEq, Eq)]
pub enum ReadableKey {
    DeviceId,
    DeviceTy,
    /// The URL of the unnamed instance (`None`) or of a named one.
    C8yUrl(Option<String>),
    MqttPort,
}

/// The settings that can be written: every readable one but the device
/// identifier, which is computed.
#[derive(Clone, Debug, PartialEq, Eq)]
pub enum WritableKey {
    DeviceTy,
    /// The URL of the unnamed instance (`None`) or of a named one.
    C8yUrl(Option<String>),
    MqttPort,
}

/// The setting that a key addresses, instance names taken as character
/// sequences. Readable and writable keys share it.
pub enum KeyView {
    DeviceId,
    DeviceTy,
    C8yUrl(Option<Seq<char>>),
    MqttPort,
}

/// An instance name is one path segment that is not itself the name of a
/// setting of the block.
pub open spec fn valid_instance_name(name: Seq<char>) -> bool {
    !name.contains('.') && name != "url"@
}

impl KeyView {
    /// The dotted path of the key.
    pub open spec fn path(self) -> Seq<char> {
        match self {
            KeyView::DeviceId => "device.id"@,
            KeyView::DeviceTy => "device.type"@,
            KeyView::C8yUrl(None) => "c8y.url"@,
            KeyView::C8yUrl(Some(name)) => "c8y."@ + name + ".url"@,
            KeyView::MqttPort => "mqtt.port"@,
        }
    }

    /// The instance name, where the key carries one, can stand in a path.
    pub open spec fn wf(self) -> bool {
        match self {
            KeyView::C8yUrl(Some(name)) => valid_instance_name(name),
            _ => true,
        }
    }

    /// Whether the setting can be written.
    pub open spec fn writable(self) -> bool {
        !(self is DeviceId)
    }

    /// The instance that the key addresses in the cloud-connector block.
    pub open spec fn instance(self) -> Option<Seq<char>> {
        match self {
            KeyView::C8yUrl(name) => name,
            _ => None,
        }
    }
}

/// Whether `s` reads `c8y.<name>.url` with a valid instance name.
pub open spec fn is_instance_path(s: Seq<char>) -> bool {
    &&& s.len() >= 8
    &&& s.subrange(0, 4) == "c8y."@
    &&& s.subrange(s.len() - 4, s.len() as int) == ".url"@
    &&& valid_instance_name(s.subrange(4, s.len() - 4))
}

/// The key that a path denotes, if it denotes one.
pub open spec fn parse_path(s: Seq<char>) -> Option<KeyView> {
    if s == "device.id"@ {
        Some(KeyView::DeviceId)
    } else if s == "device.type"@ {
        Some(KeyView::DeviceTy)
    } else if s == "c8y.url"@ {
        Some(KeyView::C8yUrl(None))
    } else if s == "mqtt.port"@ {
        Some(KeyView::MqttPort)
    } else if is_instance_path(s) {
        Some(KeyView::C8yUrl(Some(s.subrange(4, s.len() - 4))))
    } else {
        None
    }
}

/// The instance name as a character sequence.
pub open spec fn name_view(name: Option<String>) -> Option<Seq<char>> {
    match name {
        Some(name) => Some(name@),
        None => None,
    }
}

impl View for ReadableKey {
    type V = KeyView;

    open spec fn view(&self) -> KeyView {
        match self {
            ReadableKey::DeviceId => KeyView::DeviceId,
            ReadableKey::DeviceTy => KeyView::DeviceTy,
            ReadableKey::C8yUrl(name) => KeyView::C8yUrl(name_view(*name)),
            ReadableKey::MqttPort => KeyView::MqttPort,
        }
    }
}

impl View for WritableKey {
    type V = KeyView;

    open spec fn view(&self) -> KeyView {
        match self {
            WritableKey::DeviceTy => KeyView::DeviceTy,
            WritableKey::C8yUrl(name) => KeyView::C8yUrl(name_view(*name)),
            WritableKey::MqttPort => KeyView::MqttPort,
        }
    }
}

/// What the fixed path texts are made of.
proof fn lemma_path_texts()
    ensures
        "device.id"@.len() == 9,
        "device.id"@[0] == 'd',
        "device.type"@.len() == 11,
        "device.type"@[0] == 'd',
        "c8y.url"@.len() == 7,
        "mqtt.port"@.len() == 9,
        "mqtt.port"@[0] == 'm',
        "c8y."@ == seq!['c', '8', 'y', '.'],
        ".url"@ == seq!['.', 'u', 'r', 'l'],
        "url"@ == seq!['u', 'r', 'l'],
        "c8y.url"@ == seq!['c', '8', 'y', '.', 'u', 'r', 'l'],
{
    reveal_strlit("device.id");
    reveal_strlit("device.type");
    reveal_strlit("c8y.url");
    reveal_strlit("mqtt.port");
    reveal_strlit("c8y.");
    reveal_strlit(".url");
    reveal_strlit("url");
    assert("c8y."@ =~= seq!['c', '8', 'y', '.']);
    assert(".url"@ =~= seq!['.', 'u', 'r', 'l']);
    assert("url"@ =~= seq!['u', 'r', 'l']);
    assert("c8y.url"@ =~= seq!['c', '8', 'y', '.', 'u', 'r', 'l']);
}

/// Rendering the key that a path denotes gives the path back, and that key
/// is well-formed.
pub proof fn lemma_render_parsed(s: Seq<char>)
    ensures
        parse_path(s) matches Some(key) ==> key.wf() && key.path() == s,
{
    if is_instance_path(s) {
        let name = s.subrange(4, s.len() - 4);
        assert(s =~= s.subrange(0, 4) + name + s.subrange(s.len() - 4, s.len() as int));
    }
}

/// Parsing the path of a well-formed key gives the key back.
pub proof fn lemma_parse_rendered(key: KeyView)
    requires
        key.wf(),
    ensures
        parse_path(key.path()) == Some(key),
{
    lemma_path_texts();
    match key {
        KeyView::C8yUrl(Some(name)) => {
            let s = key.path();
            assert(s.len() == name.len() + 8);
            assert(s[0] == 'c');
            assert(s.subrange(0, 4) =~= "c8y."@);
            assert(s.subrange(s.len() - 4, s.len() as int) =~= ".url"@);
            assert(s.subrange(4, s.len() - 4) =~= name);
        },
        KeyView::C8yUrl(None) => {
            assert("c8y.url"@[0] == 'c');
        },
        _ => {},
    }
}

/// Extracts the instance name from a path of the form `c8y.<name>.url`.
fn instance_name(s: &str) -> (r: Option<String>)
    ensures
        match r {
            Some(name) => is_instance_path(s@) && name@ == s@.subrange(4, s@.len() - 4),
            None => !is_instance_path(s@),
        },
{
    let n = s.unicode_len();
    if n < 8 {
        return None;
    }
    let head = s.substring_char(0, 4);
    let name = s.substring_char(4, n - 4);
    let tail = s.substring_char(n - 4, n);
    if str_equal(head, "c8y.") && str_equal(tail, ".url") && !contains_char(name, '.')
        && !str_equal(name, "url") {
        Some(name.to_owned())
    } else {
        None
    }
}

impl ReadableKey {
    /// Parses a dotted path. A path that denotes no key is rejected as
    /// unrecognized, with the path in the error.
    pub fn from_str(s: &str) -> (r: Result<ReadableKey, ConfigError>)
        ensures
            match r {
                Ok(key) => parse_path(s@) == Some(key@),
                Err(e) => parse_path(s@) is None && e@ == ConfigErrorView::UnrecognizedKey(s@),
            },
    {
        if str_equal(s, "device.id") {
            Ok(ReadableKey::DeviceId)
        } else if str_equal(s, "device.type") {
            Ok(ReadableKey::DeviceTy)
        } else if str_equal(s, "c8y.url") {
            Ok(ReadableKey::C8yUrl(None))
        } else if str_equal(s, "mqtt.port") {
            Ok(ReadableKey::MqttPort)
        } else {
            match instance_name(s) {
                Some(name) => Ok(ReadableKey::C8yUrl(Some(name))),
                None => Err(ConfigError::UnrecognizedKey(s.to_owned())),
            }
        }
    }

    /// The dotted path of the key.
    pub fn to_string(&self) -> (r: String)
        ensures
            r@ == self@.path(),
    {
        match self {
            ReadableKey::DeviceId => "device.id".to_owned(),
            ReadableKey::DeviceTy => "device.type".to_owned(),
            ReadableKey::C8yUrl(name) => c8y_url_path(name),
            ReadableKey::MqttPort => "mqtt.port".to_owned(),
        }
    }
}

impl WritableKey {
    /// Parses a dotted path. The path of a setting that can only be read is
    /// rejected as read-only, and a path that denotes no key as unrecognized;
    /// either error carries the path.
    pub fn from_str(s: &str) -> (r: Result<WritableKey, ConfigError>)
        ensures
            match r {
                Ok(key) => parse_path(s@) == Some(key@),
                Err(e) => match parse_path(s@) {
                    Some(key) => !key.writable() && e@ == ConfigErrorView::ReadOnly(s@),
                    None => e@ == ConfigErrorView::UnrecognizedKey(s@),
                },
            },
    {
        if str_equal(s, "device.id") {
            Err(ConfigError::ReadOnly(s.to_owned()))
        } else if str_equal(s, "device.type") {
            Ok(WritableKey::DeviceTy)
        } else if str_equal(s, "c8y.url") {
            Ok(WritableKey::C8yUrl(None))
        } else if str_equal(s, "mqtt.port") {
            Ok(WritableKey::MqttPort)
        } else {
            match instance_name(s) {
                Some(name) => Ok(WritableKey::C8yUrl(Some(name))),
                None => Err(ConfigError::UnrecognizedKey(s.to_owned())),
            }
        }
    }

    /// The dotted path of the key.
    pub fn to_string(&self) -> (r: String)
        ensures
            r@ == self@.path(),
    {
        match self {
            WritableKey::DeviceTy => "device.type".to_owned(),
            WritableKey::C8yUrl(name) => c8y_url_path(name),
            WritableKey::MqttPort => "mqtt.port".to_owned(),
        }
    }

    /// The readable key for the same setting.
    pub fn to_readable(&self) -> (r: ReadableKey)
        ensures
            r@ == self@,
    {
        match self {
            WritableKey::DeviceTy => ReadableKey::DeviceTy,
            WritableKey::C8yUrl(name) => ReadableKey::C8yUrl(name.clone()),
            WritableKey::MqttPort => ReadableKey::MqttPort,
        }
    }
}

/// The path of the URL of the unnamed instance or of a named one.
fn c8y_url_path(name: &Option<String>) -> (r: String)
    ensures
        r@ == KeyView::C8yUrl(name_view(*name)).path(),
{
    match name {
        None => "c8y.url".to_owned(),
        Some(name) => {
            let mut path = "c8y.".to_owned();
            path.append(name.as_str());
            path.append(".url");
            path
        },
    }
}

impl std::str::FromStr for ReadableKey {
    type Err = ConfigError;

    fn from_str(s: &str) -> (r: Result<ReadableKey, ConfigError>)
        ensures
            match r {
                Ok(key) => parse_path(s@) == Some(key@),
                Err(e) => parse_path(s@) is None && e@ == ConfigErrorView::UnrecognizedKey(s@),
            },
    {
        ReadableKey::from_str(s)
    }
}

impl std::str::FromStr for WritableKey {
    type Err = ConfigError;

    fn from_str(s: &str) -> (r: Result<WritableKey, ConfigError>)
        ensures
            match r {
                Ok(key) => parse_path(s@) == Some(key@),
                Err(e) => match parse_path(s@) {
                    Some(key) => !key.writable() && e@ == ConfigErrorView::ReadOnly(s@),
                    None => e@ == ConfigErrorView::UnrecognizedKey(s@),
                },
            },
    {
        WritableKey::from_str(s)
    }
}

} // verus!
