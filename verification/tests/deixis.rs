use loco::deixis::{classify_deixis, DeixisKind};

#[test]
fn named_return() {
    assert_eq!(
        classify_deixis("さっきの地下鉄の話に戻って、切符はどう買う？"),
        DeixisKind::ReturnNamed
    );
}

#[test]
fn unspecified_return() {
    assert_eq!(classify_deixis("さっきの話"), DeixisKind::ReturnUnspecified);
    assert_eq!(
        classify_deixis("さっきの話に戻って"),
        DeixisKind::ReturnUnspecified
    );
    assert_eq!(
        classify_deixis("前の話なんだけど"),
        DeixisKind::ReturnUnspecified
    );
}

#[test]
fn continue_hint() {
    assert_eq!(classify_deixis("それについて"), DeixisKind::ContinueHint);
    assert_eq!(classify_deixis("なぜ？"), DeixisKind::ContinueHint);
    assert_eq!(classify_deixis("もっと詳しく"), DeixisKind::ContinueHint);
}

#[test]
fn plain_topical() {
    assert_eq!(classify_deixis("カレーの作り方を一言"), DeixisKind::Plain);
    assert_eq!(classify_deixis("地下鉄について一言"), DeixisKind::Plain);
}

#[test]
fn en_and_zh_return_and_continue() {
    assert_eq!(
        classify_deixis("go back to the subway topic"),
        DeixisKind::ReturnNamed
    );
    assert_eq!(classify_deixis("earlier"), DeixisKind::ReturnUnspecified);
    assert_eq!(classify_deixis("why?"), DeixisKind::ContinueHint);
    assert_eq!(
        classify_deixis("回到刚才地铁的话题"),
        DeixisKind::ReturnNamed
    );
    assert_eq!(
        classify_deixis("回到刚才的话题"),
        DeixisKind::ReturnUnspecified
    );
    assert_eq!(classify_deixis("为什么？"), DeixisKind::ContinueHint);
    assert_eq!(classify_deixis("再说详细一点"), DeixisKind::ContinueHint);
}

#[test]
fn deixis_empty_and_whitespace_is_plain() {
    assert_eq!(classify_deixis(""), DeixisKind::Plain);
    assert_eq!(classify_deixis("   \t\n"), DeixisKind::Plain);
}
