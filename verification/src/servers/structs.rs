//! The announcement a game server sends to the master server.

use vstd::prelude::*;

use crate::listing::Listed;

verus! {

/// A game server as announced to the master server. Every text field is held
/// as it was received; `last_update` is set by the master server itself.
#[derive(Clone, Debug)]
pub struct Server {
    pub address: String,
    pub port: u16,
    pub name: String,
    pub version: String,
    pub players: u16,
    pub max_players: u16,
    pub country: String,
    pub description: String,
    pub website: String,
    pub game_mode: String,
    pub language: String,
    pub use_p2p: bool,
    pub use_zt: bool,
    pub zt_id: String,
    pub zt_address: String,
    pub public_key_modulus: String,
    pub public_key_exponent: String,
    pub last_update: u64,
}

/// A [`Server`] with each text field taken as its characters.
pub struct ServerView {
    pub address: Seq<char>,
    pub port: u16,
    pub name: Seq<char>,
    pub version: Seq<char>,
    pub players: u16,
    pub max_players: u16,
    pub country: Seq<char>,
    pub description: Seq<char>,
    pub website: Seq<char>,
    pub game_mode: Seq<char>,
    pub language: Seq<char>,
    pub use_p2p: bool,
    pub use_zt: bool,
    pub zt_id: Seq<char>,
    pub zt_address: Seq<char>,
    pub public_key_modulus: Seq<char>,
    pub public_key_exponent: Seq<char>,
    pub last_update: u64,
}

impl View for Server {
    type V = ServerView;

    open spec fn view(&self) -> ServerView {
        ServerView {
            address: self.address@,
            port: self.port,
            name: self.name@,
            version: self.version@,
            players: self.players,
            max_players: self.max_players,
            country: self.country@,
            description: self.description@,
            website: self.website@,
            game_mode: self.game_mode@,
            language: self.language@,
            use_p2p: self.use_p2p,
            use_zt: self.use_zt,
            zt_id: self.zt_id@,
            zt_address: self.zt_address@,
            public_key_modulus: self.public_key_modulus@,
            public_key_exponent: self.public_key_exponent@,
            last_update: self.last_update,
        }
    }
}

impl Listed for ServerView {
    open spec fn key_address(&self) -> Seq<char> {
        self.address
    }

    open spec fn key_port(&self) -> u16 {
        self.port
    }

    open spec fn stamp(&self) -> u64 {
        self.last_update
    }

    open spec fn player_count(&self) -> u16 {
        self.players
    }
}

/// What the profanity filter of the `censor` crate, with its `Standard` and
/// `Sex` word sets together, makes of a text.
pub uninterp spec fn censored(text: Seq<char>) -> Seq<char>;

/// Runs `censor::Censor::censor` with the word sets `Standard + Sex` on
/// `text`. The contract claims what the crate's source shows of that method:
/// the result is a function of `text` alone, it maps `text.chars()` one for
/// one, and each character is either kept or replaced by `'*'`. Which
/// characters are replaced is not stated.
#[verifier::external_body]
pub(crate) fn censor_text(text: &str) -> (r: String)
    ensures
        r@ == censored(text@),
        r@.len() == text@.len(),
        forall|i: int| 0 <= i < text@.len() ==> #[trigger] r@[i] == text@[i] || r@[i] == '*',
{
    (censor::Standard + censor::Sex).censor(text)
}

/// The announcement with the profanity filter applied to its name,
/// description and website.
pub open spec fn filtered(s: ServerView) -> ServerView {
    ServerView {
        name: censored(s.name),
        description: censored(s.description),
        website: censored(s.website),
        ..s
    }
}

impl Server {
    /// A field-by-field copy.
    pub fn duplicate(&self) -> (r: Server)
        ensures
            r@ == self@,
    {
        Server {
            address: self.address.clone(),
            port: self.port,
            name: self.name.clone(),
            version: self.version.clone(),
            players: self.players,
            max_players: self.max_players,
            country: self.country.clone(),
            description: self.description.clone(),
            website: self.website.clone(),
            game_mode: self.game_mode.clone(),
            language: self.language.clone(),
            use_p2p: self.use_p2p,
            use_zt: self.use_zt,
            zt_id: self.zt_id.clone(),
            zt_address: self.zt_address.clone(),
            public_key_modulus: self.public_key_modulus.clone(),
            public_key_exponent: self.public_key_exponent.clone(),
            last_update: self.last_update,
        }
    }

    /// Replaces all bad words in the name, the description and the website.
    pub fn filter_bad_words(&mut self)
        ensures
            final(self)@ == filtered(old(self)@),
    {
        self.name = censor_text(self.name.as_str());
        self.description = censor_text(self.description.as_str());
        self.website = censor_text(self.website.as_str());
    }
}

} // verus!
