//! The localized reference dataset: augment records with a name per
//! locale, and per-champion tier statistics keyed by champion and
//! augment id.
//!
//! The dataset is immutable once built; it is loaded at process start
//! and passed by shared reference into every component that needs
//! lookups.  Champion statistics are held as an association list keyed
//! by the lowercased champion key; lookups take the first entry with a
//! matching key, which coincides with map lookup since keys are loaded
//! uniquely.

use vstd::prelude::*;

verus! {

/// Locale codes of the dataset's name table.
#[derive(Clone, Copy, Debug, PartialEq, Eq, Hash, Structural)]
pub enum Language {
    ArAe,
    CsCz,
    DeDe,
    ElGr,
    EnAu,
    EnGb,
    EnPh,
    EnSg,
    EsAr,
    EsEs,
    EsMx,
    FrFr,
    HuHu,
    IdId,
    ItIt,
    JaJp,
    KoKr,
    PlPl,
    PtBr,
    RoRo,
    RuRu,
    ThTh,
    TrTr,
    ViVn,
    ZhCn,
    ZhMy,
    ZhTw,
}

/// One augment's display name in every supported locale.
#[derive(Debug)]
pub struct Name {
    pub ar_ae: String,
    pub cs_cz: String,
    pub de_de: String,
    pub el_gr: String,
    pub en_au: String,
    pub en_gb: String,
    pub en_ph: String,
    pub en_sg: String,
    pub es_ar: String,
    pub es_es: String,
    pub es_mx: String,
    pub fr_fr: String,
    pub hu_hu: String,
    pub id_id: String,
    pub it_it: String,
    pub ja_jp: String,
    pub ko_kr: String,
    pub pl_pl: String,
    pub pt_br: String,
    pub ro_ro: String,
    pub ru_ru: String,
    pub th_th: String,
    pub tr_tr: String,
    pub vi_vn: String,
    pub zh_cn: String,
    pub zh_my: String,
    pub zh_tw: String,
}

/// The localized name selected by a locale code.
pub open spec fn lang_name(n: Name, lang: Language) -> Seq<char> {
    match lang {
        Language::ArAe => n.ar_ae@,
        Language::CsCz => n.cs_cz@,
        Language::DeDe => n.de_de@,
        Language::ElGr => n.el_gr@,
        Language::EnAu => n.en_au@,
        Language::EnGb => n.en_gb@,
        Language::EnPh => n.en_ph@,
        Language::EnSg => n.en_sg@,
        Language::EsAr => n.es_ar@,
        Language::EsEs => n.es_es@,
        Language::EsMx => n.es_mx@,
        Language::FrFr => n.fr_fr@,
        Language::HuHu => n.hu_hu@,
        Language::IdId => n.id_id@,
        Language::ItIt => n.it_it@,
        Language::JaJp => n.ja_jp@,
        Language::KoKr => n.ko_kr@,
        Language::PlPl => n.pl_pl@,
        Language::PtBr => n.pt_br@,
        Language::RoRo => n.ro_ro@,
        Language::RuRu => n.ru_ru@,
        Language::ThTh => n.th_th@,
        Language::TrTr => n.tr_tr@,
        Language::ViVn => n.vi_vn@,
        Language::ZhCn => n.zh_cn@,
        Language::ZhMy => n.zh_my@,
        Language::ZhTw => n.zh_tw@,
    }
}

/// Two name tables hold the same text in every locale.
pub open spec fn name_view_eq(a: Name, b: Name) -> bool {
    forall|lang: Language| lang_name(a, lang) == lang_name(b, lang)
}

impl Name {
    /// The display name for the given locale.
    pub fn get(&self, lang: Language) -> (r: &str)
        ensures
            r@ == lang_name(*self, lang),
    {
        match lang {
            Language::ArAe => self.ar_ae.as_str(),
            Language::CsCz => self.cs_cz.as_str(),
            Language::DeDe => self.de_de.as_str(),
            Language::ElGr => self.el_gr.as_str(),
            Language::EnAu => self.en_au.as_str(),
            Language::EnGb => self.en_gb.as_str(),
            Language::EnPh => self.en_ph.as_str(),
            Language::EnSg => self.en_sg.as_str(),
            Language::EsAr => self.es_ar.as_str(),
            Language::EsEs => self.es_es.as_str(),
            Language::EsMx => self.es_mx.as_str(),
            Language::FrFr => self.fr_fr.as_str(),
            Language::HuHu => self.hu_hu.as_str(),
            Language::IdId => self.id_id.as_str(),
            Language::ItIt => self.it_it.as_str(),
            Language::JaJp => self.ja_jp.as_str(),
            Language::KoKr => self.ko_kr.as_str(),
            Language::PlPl => self.pl_pl.as_str(),
            Language::PtBr => self.pt_br.as_str(),
            Language::RoRo => self.ro_ro.as_str(),
            Language::RuRu => self.ru_ru.as_str(),
            Language::ThTh => self.th_th.as_str(),
            Language::TrTr => self.tr_tr.as_str(),
            Language::ViVn => self.vi_vn.as_str(),
            Language::ZhCn => self.zh_cn.as_str(),
            Language::ZhMy => self.zh_my.as_str(),
            Language::ZhTw => self.zh_tw.as_str(),
        }
    }
}

impl Clone for Name {
    /// A clone holds the same text in every locale.
    fn clone(&self) -> (r: Self)
        ensures
            name_view_eq(r, *self),
    {
        let r = Name {
            ar_ae: self.ar_ae.clone(),
            cs_cz: self.cs_cz.clone(),
            de_de: self.de_de.clone(),
            el_gr: self.el_gr.clone(),
            en_au: self.en_au.clone(),
            en_gb: self.en_gb.clone(),
            en_ph: self.en_ph.clone(),
            en_sg: self.en_sg.clone(),
            es_ar: self.es_ar.clone(),
            es_es: self.es_es.clone(),
            es_mx: self.es_mx.clone(),
            fr_fr: self.fr_fr.clone(),
            hu_hu: self.hu_hu.clone(),
            id_id: self.id_id.clone(),
            it_it: self.it_it.clone(),
            ja_jp: self.ja_jp.clone(),
            ko_kr: self.ko_kr.clone(),
            pl_pl: self.pl_pl.clone(),
            pt_br: self.pt_br.clone(),
            ro_ro: self.ro_ro.clone(),
            ru_ru: self.ru_ru.clone(),
            th_th: self.th_th.clone(),
            tr_tr: self.tr_tr.clone(),
            vi_vn: self.vi_vn.clone(),
            zh_cn: self.zh_cn.clone(),
            zh_my: self.zh_my.clone(),
            zh_tw: self.zh_tw.clone(),
        };
        r
    }
}

/// One augment record: a stable id, its localized names, and optional
/// global tier statistics.
#[derive(Debug)]
pub struct Augment {
    pub id: i32,
    pub name: Name,
    pub tier: Option<String>,
    pub popularity: Option<String>,
    pub games: Option<i32>,
}

/// Two optional strings hold the same text (or are both absent).
pub open spec fn opt_string_view_eq(a: Option<String>, b: Option<String>) -> bool {
    match (a, b) {
        (Option::None, Option::None) => true,
        (Option::Some(x), Option::Some(y)) => x@ == y@,
        _ => false,
    }
}

/// Two augment records carry the same data.
pub open spec fn augment_view_eq(a: Augment, b: Augment) -> bool {
    &&& a.id == b.id
    &&& name_view_eq(a.name, b.name)
    &&& opt_string_view_eq(a.tier, b.tier)
    &&& opt_string_view_eq(a.popularity, b.popularity)
    &&& a.games == b.games
}

/// Clones an optional string.
fn clone_opt_string(o: &Option<String>) -> (r: Option<String>)
    ensures
        opt_string_view_eq(r, *o),
{
    match o {
        Option::None => Option::None,
        Option::Some(s) => Option::Some(s.clone()),
    }
}

impl Clone for Augment {
    /// A clone carries the same record data.
    fn clone(&self) -> (r: Self)
        ensures
            augment_view_eq(r, *self),
    {
        Augment {
            id: self.id,
            name: self.name.clone(),
            tier: clone_opt_string(&self.tier),
            popularity: clone_opt_string(&self.popularity),
            games: match &self.games {
                Option::None => Option::None,
                Option::Some(g) => Option::Some(*g),
            },
        }
    }
}

/// One champion's statistics for one augment.
#[derive(Debug)]
pub struct Champion {
    pub id: i32,
    pub tier: String,
    pub popularity: String,
    pub games: i32,
}

/// Two champion records carry the same data.
pub open spec fn champion_view_eq(a: Champion, b: Champion) -> bool {
    &&& a.id == b.id
    &&& a.tier@ == b.tier@
    &&& a.popularity@ == b.popularity@
    &&& a.games == b.games
}

impl Clone for Champion {
    /// A clone carries the same record data.
    fn clone(&self) -> (r: Self)
        ensures
            champion_view_eq(r, *self),
    {
        Champion {
            id: self.id,
            tier: self.tier.clone(),
            popularity: self.popularity.clone(),
            games: self.games,
        }
    }
}

/// The full reference dataset: per-champion statistics (an association
/// list from lowercased champion key to that champion's augment records)
/// and the flat list of augment records.
pub struct MayhemData {
    pub champions: Vec<(String, Vec<Champion>)>,
    pub augments: Vec<Augment>,
}

} // verus!
