use sistema_votacion::calendario::Fecha;

fn fecha(dia: u32, mes: u32, anio: i32) -> Fecha {
    Fecha { dia, mes, anio }
}

#[test]
fn primer_dia_de_la_epoca() {
    assert_eq!(fecha(1, 1, 1970).to_timestamp(), 86_400_000);
    assert_eq!(fecha(2, 1, 1970).to_timestamp(), 2 * 86_400_000);
    assert_eq!(fecha(1, 2, 1970).to_timestamp(), 32 * 86_400_000);
}

#[test]
fn instante_de_2024() {
    // 54 years, 13 of them leap, then day 1.
    assert_eq!(fecha(1, 1, 2024).to_timestamp(), 19_724 * 86_400_000);
    assert_eq!(fecha(1, 1, 2024).to_timestamp(), 1_704_153_600_000);
    assert_eq!(fecha(1, 3, 2024).to_timestamp() - fecha(28, 2, 2024).to_timestamp(), 2 * 86_400_000);
}

#[test]
fn instante_sigue_el_orden_civil() {
    let fechas = [
        fecha(31, 12, 1999),
        fecha(1, 1, 2000),
        fecha(28, 2, 2000),
        fecha(29, 2, 2000),
        fecha(1, 3, 2000),
        fecha(30, 4, 2000),
        fecha(1, 5, 2000),
        fecha(31, 12, 2000),
        fecha(1, 1, 2001),
    ];
    for i in 0..fechas.len() {
        for j in 0..fechas.len() {
            assert_eq!(i < j, fechas[i].to_timestamp() < fechas[j].to_timestamp());
        }
    }
}

#[test]
fn validez_de_fechas() {
    assert!(fecha(29, 2, 2024).es_fecha_valida());
    assert!(!fecha(29, 2, 2023).es_fecha_valida());
    assert!(fecha(29, 2, 2000).es_fecha_valida());
    assert!(!fecha(29, 2, 2100).es_fecha_valida());
    assert!(!fecha(31, 4, 2024).es_fecha_valida());
    assert!(fecha(31, 12, 2024).es_fecha_valida());
    assert!(!fecha(0, 1, 2024).es_fecha_valida());
    assert!(!fecha(1, 13, 2024).es_fecha_valida());
    assert!(!fecha(1, 0, 2024).es_fecha_valida());
    assert!(!fecha(31, 12, 1969).es_fecha_valida());
}
