//! This module deals with various configurations that can be applied while creating a iso msg like
//! crypto field F52, F64/128 etc
use crate::crypto::mac::MacAlgo;
use crate::crypto::mac::PaddingType;
use crate::crypto::pin::PinFormat;
use vstd::prelude::*;

verus! {

/// What the crypto fields of a message are made with: the PIN block format
/// and key, and the MAC algorithm, padding and key.
#[derive(Debug)]
pub struct Config {
    pin_format: Option<PinFormat>,
    pin_key: Option<String>,
    mac_algo: Option<MacAlgo>,
    mac_padding: Option<PaddingType>,
    mac_key: Option<String>,
}

/// What a `Config` holds, as plain values.
pub struct ConfigView {
    pub pin_format: Option<PinFormat>,
    pub pin_key: Option<Seq<char>>,
    pub mac_algo: Option<MacAlgo>,
    pub mac_padding: Option<PaddingType>,
    pub mac_key: Option<Seq<char>>,
}

/// The text of a key, if there is one.
pub open spec fn key_view(k: Option<String>) -> Option<Seq<char>> {
    match k {
        Some(s) => Some(s@),
        None => None,
    }
}

impl View for Config {
    type V = ConfigView;

    closed spec fn view(&self) -> ConfigView {
        ConfigView {
            pin_format: self.pin_format,
            pin_key: key_view(self.pin_key),
            mac_algo: self.mac_algo,
            mac_padding: self.mac_padding,
            mac_key: key_view(self.mac_key),
        }
    }
}

impl Config {
    // Creates a new empty Config
    pub fn new() -> (c: Config)
        ensures
            c@ == (ConfigView {
                pin_format: None,
                pin_key: None,
                mac_algo: None,
                mac_padding: None,
                mac_key: None,
            }),
    {
        Config { pin_format: None, pin_key: None, mac_algo: None, mac_key: None, mac_padding: None }
    }

    /// Returns the PIN block format associated with this config
    pub fn get_pin_fmt(&self) -> (r: &Option<PinFormat>)
        ensures
            *r == self@.pin_format,
    {
        &self.pin_format
    }

    /// Returns the PIN key associated with this config
    pub fn get_pin_key(&self) -> (r: &Option<String>)
        ensures
            key_view(*r) == self@.pin_key,
    {
        &self.pin_key
    }

    /// Returns the MAC key associated with this config
    pub fn get_mac_key(&self) -> (r: &Option<String>)
        ensures
            key_view(*r) == self@.mac_key,
    {
        &self.mac_key
    }

    /// Returns the MAC'ing algorithm associated with this config
    pub fn get_mac_algo(&self) -> (r: &Option<MacAlgo>)
        ensures
            *r == self@.mac_algo,
    {
        &self.mac_algo
    }

    /// Returns the MAC padding scheme associated with this config
    pub fn get_mac_padding(&self) -> (r: &Option<PaddingType>)
        ensures
            *r == self@.mac_padding,
    {
        &self.mac_padding
    }

    /// Use the Config with a builder pattern
    pub fn with_pin(&mut self, fmt: PinFormat, key: String) -> (r: &mut Config)
        ensures
            final(self)@ == final(r)@,
            r@ == (ConfigView { pin_format: Some(fmt), pin_key: Some(key@), ..old(self)@ }),
    {
        self.pin_format = Some(fmt);
        self.pin_key = Some(key);
        self
    }

    /// Use the Config with a builder pattern
    pub fn with_mac(&mut self, algo: MacAlgo, mac_padding: PaddingType, key: String) -> (r:
        &mut Config)
        ensures
            final(self)@ == final(r)@,
            r@ == (ConfigView {
                mac_algo: Some(algo),
                mac_padding: Some(mac_padding),
                mac_key: Some(key@),
                ..old(self)@
            }),
    {
        self.mac_algo = Some(algo);
        self.mac_key = Some(key);
        self.mac_padding = Some(mac_padding);
        self
    }
}

} // verus!
