//! The read-oriented projection of a configuration document.
//!
//! A reader is built once from a document and is not kept in step with it:
//! after the document has been updated, a fresh reader is built.

use crate::dto::{
    dto_c8y_view, C8yView, DtoView, TEdgeConfigDto, TEdgeConfigDtoC8y, TEdgeConfigDtoDevice,
    TEdgeConfigDtoMqtt,
};
use crate::error::{ConfigError, ConfigErrorView};
use crate::key::{KeyView, ReadableKey};
use crate::multi::{
    lemma_corresponds_projection, lemma_get_after_set, lemma_get_other_after_set,
    lemma_map_values_get, Multi, MultiView,
};
use crate::text::{decimal_text, lemma_parse_decimal, parse_u16_spec, u16_to_string};
use std::borrow::Cow;
use vstd::prelude::*;

verus! {

/// What the rest of the system reads the configuration from.
pub struct TEdgeConfigReader {
    pub device: TEdgeConfigReaderDevice,
    pub c8y: Multi<TEdgeConfigReaderC8y>,
    pub mqtt: TEdgeConfigReaderMqtt,
}

/// The device block, with the identifier of the device.
pub struct TEdgeConfigReaderDevice {
    pub id: String,
    pub ty: String,
}

/// One instance of the cloud-connector block.
pub struct TEdgeConfigReaderC8y {
    pub url: String,
}

/// The MQTT block.
pub struct TEdgeConfigReaderMqtt {
    pub port: u16,
}

/// The settings that a reader holds.
pub struct ReaderView {
    pub device_id: Seq<char>,
    pub device_ty: Seq<char>,
    pub c8y: MultiView<C8yView>,
    pub mqtt_port: u16,
}

impl View for TEdgeConfigReaderC8y {
    type V = C8yView;

    open spec fn view(&self) -> C8yView {
        C8yView { url: self.url@ }
    }
}

/// The projection of a reader's instance to its settings.
pub open spec fn reader_c8y_view() -> spec_fn(TEdgeConfigReaderC8y) -> C8yView {
    |c8y: TEdgeConfigReaderC8y| c8y@
}

impl View for TEdgeConfigReader {
    type V = ReaderView;

    open spec fn view(&self) -> ReaderView {
        ReaderView {
            device_id: self.device.id@,
            device_ty: self.device.ty@,
            c8y: self.c8y.model().map_values(reader_c8y_view()),
            mqtt_port: self.mqtt.port,
        }
    }
}

/// The identifier that a reader reports for the device.
pub open spec fn device_id() -> Seq<char> {
    "some-device"@
}

/// The reader's view of a stored configuration: every setting as stored,
/// and the identifier of the device beside them.
pub open spec fn reader_of(dto: DtoView) -> ReaderView {
    ReaderView {
        device_id: device_id(),
        device_ty: dto.device_ty,
        c8y: dto.c8y,
        mqtt_port: dto.mqtt_port,
    }
}

impl ReaderView {
    /// The text of the setting that `key` addresses. A port is written in
    /// decimal notation. A URL is read from the instance that the key
    /// addresses, and is refused as not configured where the key addresses
    /// none.
    pub open spec fn read(self, key: KeyView) -> Result<Seq<char>, ConfigErrorView> {
        match key {
            KeyView::DeviceId => Ok(self.device_id),
            KeyView::DeviceTy => Ok(self.device_ty),
            KeyView::C8yUrl(name) => match self.c8y.get(name) {
                Some(c8y) => Ok(c8y.url),
                None => Err(ConfigErrorView::NotConfigured(key.path())),
            },
            KeyView::MqttPort => Ok(decimal_text(self.mqtt_port as nat)),
        }
    }
}

/// What was written to a text setting is what a reader built afterwards
/// reads there.
pub proof fn lemma_read_after_update(dto: DtoView, key: KeyView, value: Seq<char>)
    requires
        dto.update(key, value) is Ok,
        key is DeviceTy || key is C8yUrl,
    ensures
        reader_of(dto.update(key, value)->Ok_0).read(key) == Ok::<Seq<char>, ConfigErrorView>(
            value,
        ),
{
    match key {
        KeyView::C8yUrl(name) => {
            lemma_get_after_set(dto.c8y, name, C8yView { url: value });
        },
        _ => {},
    }
}

/// A port that was written is read back in decimal notation, and writing
/// what is read changes nothing.
pub proof fn lemma_read_port_after_update(dto: DtoView, value: Seq<char>)
    requires
        dto.update(KeyView::MqttPort, value) is Ok,
    ensures
        ({
            let written = dto.update(KeyView::MqttPort, value)->Ok_0;
            let text = decimal_text(written.mqtt_port as nat);
            &&& parse_u16_spec(value) == Some(written.mqtt_port)
            &&& reader_of(written).read(KeyView::MqttPort) == Ok::<Seq<char>, ConfigErrorView>(text)
            &&& written.update(KeyView::MqttPort, text) == Ok::<DtoView, ConfigErrorView>(written)
        }),
{
    let written = dto.update(KeyView::MqttPort, value)->Ok_0;
    lemma_parse_decimal(written.mqtt_port);
}

/// An update of one setting leaves what is read under every other key as it
/// was.
pub proof fn lemma_read_other_after_update(
    dto: DtoView,
    key: KeyView,
    value: Seq<char>,
    other: KeyView,
)
    requires
        dto.update(key, value) is Ok,
        other != key,
    ensures
        reader_of(dto.update(key, value)->Ok_0).read(other) == reader_of(dto).read(other),
{
    match (key, other) {
        (KeyView::C8yUrl(name), KeyView::C8yUrl(other_name)) => {
            lemma_get_other_after_set(dto.c8y, name, other_name, C8yView { url: value });
        },
        _ => {},
    }
}

impl vstd::std_specs::convert::FromSpecImpl<TEdgeConfigDtoDevice> for TEdgeConfigReaderDevice {
    /// The identifier is a fresh string, so the result is described by its
    /// text and not as a function of the argument.
    open spec fn obeys_from_spec() -> bool {
        false
    }

    open spec fn from_spec(value: TEdgeConfigDtoDevice) -> TEdgeConfigReaderDevice {
        arbitrary()
    }
}

impl From<TEdgeConfigDtoDevice> for TEdgeConfigReaderDevice {
    fn from(value: TEdgeConfigDtoDevice) -> (r: TEdgeConfigReaderDevice)
        ensures
            r.id@ == device_id(),
            r.ty@ == value.ty@,
    {
        TEdgeConfigReaderDevice { id: "some-device".to_owned(), ty: value.ty }
    }
}

impl vstd::std_specs::convert::FromSpecImpl<TEdgeConfigDtoC8y> for TEdgeConfigReaderC8y {
    open spec fn obeys_from_spec() -> bool {
        true
    }

    open spec fn from_spec(value: TEdgeConfigDtoC8y) -> TEdgeConfigReaderC8y {
        TEdgeConfigReaderC8y { url: value.url }
    }
}

impl From<TEdgeConfigDtoC8y> for TEdgeConfigReaderC8y {
    fn from(value: TEdgeConfigDtoC8y) -> (r: TEdgeConfigReaderC8y)
        ensures
            r@ == value@,
    {
        TEdgeConfigReaderC8y { url: value.url }
    }
}

/// The reader's form of one stored instance.
fn read_c8y(value: TEdgeConfigDtoC8y) -> (r: TEdgeConfigReaderC8y)
    ensures
        r@ == value@,
{
    TEdgeConfigReaderC8y::from(value)
}

impl vstd::std_specs::convert::FromSpecImpl<TEdgeConfigDtoMqtt> for TEdgeConfigReaderMqtt {
    open spec fn obeys_from_spec() -> bool {
        true
    }

    open spec fn from_spec(value: TEdgeConfigDtoMqtt) -> TEdgeConfigReaderMqtt {
        TEdgeConfigReaderMqtt { port: value.port }
    }
}

impl From<TEdgeConfigDtoMqtt> for TEdgeConfigReaderMqtt {
    fn from(value: TEdgeConfigDtoMqtt) -> (r: TEdgeConfigReaderMqtt)
        ensures
            r.port == value.port,
    {
        TEdgeConfigReaderMqtt { port: value.port }
    }
}

impl vstd::std_specs::convert::FromSpecImpl<TEdgeConfigDto> for TEdgeConfigReader {
    /// The blocks are rebuilt, so the result is described by its settings
    /// and not as a function of the argument.
    open spec fn obeys_from_spec() -> bool {
        false
    }

    open spec fn from_spec(value: TEdgeConfigDto) -> TEdgeConfigReader {
        arbitrary()
    }
}

impl From<TEdgeConfigDto> for TEdgeConfigReader {
    fn from(value: TEdgeConfigDto) -> (r: TEdgeConfigReader)
        ensures
            r@ == reader_of(value@),
    {
        let ghost stored = value.c8y.model();
        let c8y = value.c8y.map_values(read_c8y);
        let r = TEdgeConfigReader {
            device: TEdgeConfigReaderDevice::from(value.device),
            c8y,
            mqtt: TEdgeConfigReaderMqtt::from(value.mqtt),
        };
        proof {
            lemma_corresponds_projection(
                stored,
                r.c8y.model(),
                |a: TEdgeConfigDtoC8y, b: TEdgeConfigReaderC8y| call_ensures(read_c8y, (a,), b),
                dto_c8y_view(),
                reader_c8y_view(),
            );
        }
        r
    }
}

impl TEdgeConfigReader {
    /// Reads the setting that `key` addresses, as text.
    pub fn try_read_str<'a>(&'a self, key: &ReadableKey) -> (r: Result<Cow<'a, str>, ConfigError>)
        ensures
            match r {
                Ok(text) => self@.read(key@) == Ok::<Seq<char>, ConfigErrorView>(text@),
                Err(e) => self@.read(key@) == Err::<Seq<char>, ConfigErrorView>(e@),
            },
    {
        match key {
            ReadableKey::C8yUrl(name) => {
                let instance: Option<&str> = match name {
                    Some(name) => Some(name.as_str()),
                    None => None,
                };
                proof {
                    lemma_map_values_get(self.c8y.model(), reader_c8y_view(), key@.instance());
                }
                match self.c8y.get(instance) {
                    Some(c8y) => Ok(Cow::Borrowed(c8y.url.as_str())),
                    None => Err(ConfigError::NotConfigured(key.to_string())),
                }
            },
            ReadableKey::DeviceId => Ok(Cow::Borrowed(self.device.id.as_str())),
            ReadableKey::DeviceTy => Ok(Cow::Borrowed(self.device.ty.as_str())),
            ReadableKey::MqttPort => Ok(Cow::Owned(u16_to_string(self.mqtt.port))),
        }
    }
}

} // verus!
