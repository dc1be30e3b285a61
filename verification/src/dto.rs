//! The configuration document as it is stored, and in-place updates of its
//! settings.

use crate::error::{ConfigError, ConfigErrorView, ScalarType};
use crate::key::{KeyView, WritableKey};
use crate::multi::{
    lemma_map_values_get, lemma_map_values_set, lemma_set_keeps_structure, Multi, MultiView,
};
use crate::text::{parse_u16, parse_u16_spec};
use vstd::prelude::*;

verus! {

/// The stored configuration: the device block, the cloud-connector block in
/// either of its shapes, and the MQTT block.
#[derive(Debug, PartialEq, Eq)]
pub struct TEdgeConfigDto {
    pub device: TEdgeConfigDtoDevice,
    pub c8y: Multi<TEdgeConfigDtoC8y>,
    pub mqtt: TEdgeConfigDtoMqtt,
}

/// The device block.
#[derive(Debug, PartialEq, Eq)]
pub struct TEdgeConfigDtoDevice {
    pub ty: String,
}

/// One instance of the cloud-connector block.
#[derive(Debug, PartialEq, Eq)]
pub struct TEdgeConfigDtoC8y {
    pub url: String,
}

/// The MQTT block.
#[derive(Debug, PartialEq, Eq)]
pub struct TEdgeConfigDtoMqtt {
    pub port: u16,
}

/// The settings of one instance of the cloud-connector block.
pub struct C8yView {
    pub url: Seq<char>,
}

/// The settings that a stored configuration holds.
pub struct DtoView {
    pub device_ty: Seq<char>,
    pub c8y: MultiView<C8yView>,
    pub mqtt_port: u16,
}

impl View for TEdgeConfigDtoC8y {
    type V = C8yView;

    open spec fn view(&self) -> C8yView {
        C8yView { url: self.url@ }
    }
}

/// The projection of a stored instance to its settings.
pub open spec fn dto_c8y_view() -> spec_fn(TEdgeConfigDtoC8y) -> C8yView {
    |c8y: TEdgeConfigDtoC8y| c8y@
}

impl View for TEdgeConfigDto {
    type V = DtoView;

    open spec fn view(&self) -> DtoView {
        DtoView {
            device_ty: self.device.ty@,
            c8y: self.c8y.model().map_values(dto_c8y_view()),
            mqtt_port: self.mqtt.port,
        }
    }
}

/// The device type of a document that names none.
pub open spec fn default_device_type() -> Seq<char> {
    "thin-edge.io"@
}

/// The MQTT port of a document that names none.
pub open spec fn default_mqtt_port() -> u16 {
    1883
}

impl Default for TEdgeConfigDtoDevice {
    fn default() -> (r: TEdgeConfigDtoDevice)
        ensures
            r.ty@ == default_device_type(),
    {
        TEdgeConfigDtoDevice { ty: "thin-edge.io".to_owned() }
    }
}

impl Default for TEdgeConfigDtoMqtt {
    fn default() -> (r: TEdgeConfigDtoMqtt)
        ensures
            r.port == default_mqtt_port(),
    {
        TEdgeConfigDtoMqtt { port: 1883 }
    }
}

impl DtoView {
    /// The outcome of writing `value` to the setting that `key` addresses.
    ///
    /// A device type takes any text. A URL is written to the instance that
    /// the key addresses, and is refused as not configured where the key
    /// addresses none: no instance is created. A port takes the decimal
    /// notation of an unsigned 16-bit integer, and anything else is refused
    /// as a parse error that carries the text.
    pub open spec fn update(self, key: KeyView, value: Seq<char>) -> Result<
        DtoView,
        ConfigErrorView,
    > {
        match key {
            KeyView::DeviceId => Err(ConfigErrorView::ReadOnly(key.path())),
            KeyView::DeviceTy => Ok(DtoView { device_ty: value, ..self }),
            KeyView::C8yUrl(name) => if self.c8y.get(name) is Some {
                Ok(DtoView { c8y: self.c8y.set(name, C8yView { url: value }), ..self })
            } else {
                Err(ConfigErrorView::NotConfigured(key.path()))
            },
            KeyView::MqttPort => match parse_u16_spec(value) {
                Some(port) => Ok(DtoView { mqtt_port: port, ..self }),
                None => Err(ConfigErrorView::ParseError { value, target: ScalarType::U16 }),
            },
        }
    }
}

/// An update keeps the structure of the cloud-connector block: its shape,
/// the number of its instances, and whether their names are distinct.
pub proof fn lemma_update_keeps_structure(dto: DtoView, key: KeyView, value: Seq<char>)
    requires
        dto.update(key, value) is Ok,
    ensures
        ({
            let updated = dto.update(key, value)->Ok_0;
            &&& updated.c8y.is_single() == dto.c8y.is_single()
            &&& updated.c8y.count() == dto.c8y.count()
            &&& updated.c8y.wf() == dto.c8y.wf()
        }),
{
    match key {
        KeyView::C8yUrl(name) => {
            lemma_set_keeps_structure(dto.c8y, name, C8yView { url: value });
        },
        _ => {},
    }
}

impl TEdgeConfigDto {
    /// Writes `value`, converted to the type of the setting, to the setting
    /// that `key` addresses. On failure the document is left as it was.
    pub fn try_update_str(&mut self, key: &WritableKey, value: &str) -> (r: Result<
        (),
        ConfigError,
    >)
        ensures
            match r {
                Ok(_) => old(self)@.update(key@, value@) == Ok::<DtoView, ConfigErrorView>(
                    final(self)@,
                ),
                Err(e) => {
                    &&& old(self)@.update(key@, value@) == Err::<DtoView, ConfigErrorView>(e@)
                    &&& *final(self) == *old(self)
                },
            },
    {
        match key {
            WritableKey::C8yUrl(name) => {
                let instance: Option<&str> = match name {
                    Some(name) => Some(name.as_str()),
                    None => None,
                };
                let ghost before = self.c8y.model();
                let ghost mut written: TEdgeConfigDtoC8y = arbitrary();
                proof {
                    lemma_map_values_get(before, dto_c8y_view(), key@.instance());
                }
                let found = match self.c8y.get_mut(instance) {
                    Some(c8y) => {
                        c8y.url = value.to_owned();
                        proof {
                            written = *c8y;
                        }
                        true
                    },
                    None => false,
                };
                if found {
                    proof {
                        assert(self.c8y.model() == before.set(key@.instance(), written));
                        lemma_map_values_set(before, dto_c8y_view(), key@.instance(), written);
                    }
                    Ok(())
                } else {
                    Err(ConfigError::NotConfigured(key.to_string()))
                }
            },
            WritableKey::DeviceTy => {
                self.device.ty = value.to_owned();
                Ok(())
            },
            WritableKey::MqttPort => match parse_u16(value) {
                Some(port) => {
                    self.mqtt.port = port;
                    Ok(())
                },
                None => Err(
                    ConfigError::ParseError { value: value.to_owned(), target: ScalarType::U16 },
                ),
            },
        }
    }
}

} // verus!
