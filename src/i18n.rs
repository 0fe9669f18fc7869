//! Localized texts of the email-change messages.
use vstd::prelude::*;

verus! {

/// The languages the texts exist in.
#[derive(Debug, Clone, Copy, PartialEq, Eq, Structural)]
pub enum Language {
    En,
    De,
    ZhHans,
}

/// The texts of the message sent to a new address to confirm it.
#[derive(Debug)]
pub struct I18nEmailChangeInfoNew<'a> {
    pub subject: &'a str,
    pub header: &'a str,
    pub click_link: &'a str,
    pub validity: &'a str,
    pub expires: &'a str,
    pub button_text: &'a str,
}

/// The texts of the message that confirms a changed address.
#[derive(Debug)]
pub struct I18nEmailConfirmChange<'a> {
    pub subject: &'a str,
    pub msg: &'a str,
    pub msg_from_admin: &'a str,
}

pub open spec fn change_info_new(lang: Language) -> I18nEmailChangeInfoNew<'static> {
    match lang {
        Language::En => I18nEmailChangeInfoNew {
            subject: "E-Mail Change Request",
            header: "E-Mail change request for",
            click_link: "Click the link below to confirm your E-Mail address.",
            validity: "This link is only valid for a short period of time for security reasons.",
            expires: "Link expires:",
            button_text: "Confirm E-Mail",
        },
        Language::De => I18nEmailChangeInfoNew {
            subject: "E-Mail Wechsel Anfrage",
            header: "E-Mail Wechsel angefordert für",
            click_link: "Klicken Sie auf den unten stehenden Link die E-Mail Adresse zu bestätigen.",
            validity: "Dieser Link ist aus Sicherheitsgründen nur für kurze Zeit gültig.",
            expires: "Link gültig bis:",
            button_text: "E-Mail Bestätigen",
        },
        Language::ZhHans => I18nEmailChangeInfoNew {
            subject: "电子邮件更改请求",
            header: "电子邮件更改请求：",
            click_link: "点击下方链接以确认您的电子邮件地址。",
            validity: "出于安全考虑，此链接仅在短时间内有效。",
            expires: "链接过期时间：",
            button_text: "确认电子邮件地址",
        },
    }
}

pub open spec fn confirm_change(lang: Language) -> I18nEmailConfirmChange<'static> {
    match lang {
        Language::En => I18nEmailConfirmChange {
            subject: "E-Mail Change confirmed for",
            msg: "Your E-Mail address has been changed successfully to:",
            msg_from_admin: "This action was done by an Administrator.",
        },
        Language::De => I18nEmailConfirmChange {
            subject: "E-Mail Wechsel bestätigt für",
            msg: "Ihre E-Mail Adresse wurde erfolgreich geändert zu:",
            msg_from_admin: "Diese Änderung wurde durch einen Administrator durchgeführt.",
        },
        Language::ZhHans => I18nEmailConfirmChange {
            subject: "电子邮件地址已更新：",
            msg: "您的电子邮件地址已成功更新为：",
            msg_from_admin: "此操作由管理员完成。",
        },
    }
}

impl I18nEmailChangeInfoNew<'static> {
    /// The texts in `lang`.
    pub fn build(lang: &Language) -> (r: Self)
        ensures
            r == change_info_new(*lang),
    {
        match lang {
            Language::En => Self::build_en(),
            Language::De => Self::build_de(),
            Language::ZhHans => Self::build_zh_hans(),
        }
    }

    pub fn build_en() -> (r: Self)
        ensures
            r == change_info_new(Language::En),
    {
        Self {
            subject: "E-Mail Change Request",
            header: "E-Mail change request for",
            click_link: "Click the link below to confirm your E-Mail address.",
            validity: "This link is only valid for a short period of time for security reasons.",
            expires: "Link expires:",
            button_text: "Confirm E-Mail",
        }
    }

    pub fn build_de() -> (r: Self)
        ensures
            r == change_info_new(Language::De),
    {
        Self {
            subject: "E-Mail Wechsel Anfrage",
            header: "E-Mail Wechsel angefordert für",
            click_link: "Klicken Sie auf den unten stehenden Link die E-Mail Adresse zu bestätigen.",
            validity: "Dieser Link ist aus Sicherheitsgründen nur für kurze Zeit gültig.",
            expires: "Link gültig bis:",
            button_text: "E-Mail Bestätigen",
        }
    }

    pub fn build_zh_hans() -> (r: Self)
        ensures
            r == change_info_new(Language::ZhHans),
    {
        Self {
            subject: "电子邮件更改请求",
            header: "电子邮件更改请求：",
            click_link: "点击下方链接以确认您的电子邮件地址。",
            validity: "出于安全考虑，此链接仅在短时间内有效。",
            expires: "链接过期时间：",
            button_text: "确认电子邮件地址",
        }
    }
}

impl I18nEmailConfirmChange<'static> {
    /// The texts in `lang`.
    pub fn build(lang: &Language) -> (r: Self)
        ensures
            r == confirm_change(*lang),
    {
        match lang {
            Language::En => Self::build_en(),
            Language::De => Self::build_de(),
            Language::ZhHans => Self::build_zh_hans(),
        }
    }

    pub fn build_en() -> (r: Self)
        ensures
            r == confirm_change(Language::En),
    {
        Self {
            subject: "E-Mail Change confirmed for",
            msg: "Your E-Mail address has been changed successfully to:",
            msg_from_admin: "This action was done by an Administrator.",
        }
    }

    pub fn build_de() -> (r: Self)
        ensures
            r == confirm_change(Language::De),
    {
        Self {
            subject: "E-Mail Wechsel bestätigt für",
            msg: "Ihre E-Mail Adresse wurde erfolgreich geändert zu:",
            msg_from_admin: "Diese Änderung wurde durch einen Administrator durchgeführt.",
        }
    }

    pub fn build_zh_hans() -> (r: Self)
        ensures
            r == confirm_change(Language::ZhHans),
    {
        Self {
            subject: "电子邮件地址已更新：",
            msg: "您的电子邮件地址已成功更新为：",
            msg_from_admin: "此操作由管理员完成。",
        }
    }
}

} // verus!
