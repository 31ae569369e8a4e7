//! The launcher configuration and how command-line switches override it.
//! Reading and writing the configuration file happens outside the library;
//! a file that is missing or will not parse falls back to this default.

use vstd::prelude::*;
use vstd::string::StringExecFns;

verus! {

/// The persisted launcher settings.
#[derive(Debug)]
pub struct Config {
    pub update_only: bool,
    pub skip_self_update: bool,
    pub force_update: bool,
    pub args: String,
    pub offline: bool,
    pub testing: bool,
    pub disable_art: bool,
    pub dxvk: bool,
}

/// The arguments handed to the game when none are configured.
pub fn default_args() -> (r: String)
    ensures
        r@ == "-stdout"@,
{
    String::from_str("-stdout")
}

impl Clone for Config {
    fn clone(&self) -> (r: Self)
        ensures
            r.update_only == self.update_only,
            r.skip_self_update == self.skip_self_update,
            r.force_update == self.force_update,
            r.args@ == self.args@,
            r.offline == self.offline,
            r.testing == self.testing,
            r.disable_art == self.disable_art,
            r.dxvk == self.dxvk,
    {
        Config {
            update_only: self.update_only,
            skip_self_update: self.skip_self_update,
            force_update: self.force_update,
            args: self.args.clone(),
            offline: self.offline,
            testing: self.testing,
            disable_art: self.disable_art,
            dxvk: self.dxvk,
        }
    }
}

impl Default for Config {
    /// Every switch off, and the game started with `-stdout`.
    fn default() -> (r: Self)
        ensures
            !r.update_only,
            !r.skip_self_update,
            !r.force_update,
            r.args@ == "-stdout"@,
            !r.offline,
            !r.testing,
            !r.disable_art,
            !r.dxvk,
    {
        Config {
            update_only: false,
            skip_self_update: false,
            force_update: false,
            args: default_args(),
            offline: false,
            testing: false,
            disable_art: false,
            dxvk: false,
        }
    }
}

impl Config {
    /// Fold the command-line switches into the configuration: each flag
    /// can only switch its setting on, and explicit game arguments replace
    /// the configured ones.
    pub fn apply_cli_overrides(
        &mut self,
        offline: bool,
        testing: bool,
        update_only: bool,
        force_update: bool,
        disable_art: bool,
        dxvk: bool,
        args: Option<String>,
    )
        ensures
            final(self).offline == (old(self).offline || offline),
            final(self).testing == (old(self).testing || testing),
            final(self).update_only == (old(self).update_only || update_only),
            final(self).force_update == (old(self).force_update || force_update),
            final(self).disable_art == (old(self).disable_art || disable_art),
            final(self).dxvk == (old(self).dxvk || dxvk),
            final(self).args@ == match args {
                Some(a) => a@,
                None => old(self).args@,
            },
            final(self).skip_self_update == old(self).skip_self_update,
    {
        if offline {
            self.offline = true;
        }
        if testing {
            self.testing = true;
        }
        if update_only {
            self.update_only = true;
        }
        if force_update {
            self.force_update = true;
        }
        if disable_art {
            self.disable_art = true;
        }
        if dxvk {
            self.dxvk = true;
        }
        match args {
            Some(a) => {
                self.args = a;
            }
            None => {}
        }
    }
}

} // verus!
